//! One task's way through the state machine, from sequence number 2 to its terminal
//! event.
//!
//! ```text
//! gate: cancelled -> Cancelled(2), expired -> TimedOut(2), too deep or too far,
//!       not a usable target, no dispatcher -> Failed(2)
//! each attempt: cancelled or expired? -> Dispatched -> deliver
//!               cancelled or expired? -> Running    -> execute
//!               -> Completed | Failed | TimedOut | Cancelled, or the next attempt
//! ```
//!
//! The machine decides; whoever drives it performs the action it asks for and hands
//! back what came of it. A stage that has a result keeps it even where a cancellation
//! or the deadline arrived meanwhile; a cancellation outranks the deadline. A refused
//! stage that is retried leaves no event behind: the next `Dispatched` shows it.
//!
//! An event that cannot be written stops the worker: nothing is invented in its place.

use vstd::prelude::*;
use vstd::string::*;
use crate::bus::control::{Cancellation, Recorded};
use crate::bus::error::BusError;
use crate::bus::registry::{judged, EndpointRegistry, EndpointView, RegisteredEndpoint};
use crate::bus::worker::{
    DispatchError, DispatchOutcome, DispatcherRegistry, FinalizeResult, LifecycleResult,
    QueueLeaseContext, RetryPolicy, WorkerConfig, WorkerError,
};
use crate::ids::{is_version_7, DeliveryId, EventId, TaskId};
use crate::models::{AgentTask, TaskEvent, TaskEventPayload, TransportType};
use crate::time::Timestamp;

verus! {

/// What an event records, as data.
pub ghost enum PayloadView {
    Queued,
    Dispatched { delivery: DeliveryId, attempt: nat },
    Running { started_at: Timestamp },
    Completed { output: Seq<char> },
    Failed { error: Seq<char> },
    TimedOut { deadline: Timestamp },
    Cancelled { reason: Seq<char> },
}

impl PayloadView {
    /// Whether nothing follows such an event.
    pub open spec fn terminal(self) -> bool {
        self is Completed || self is Failed || self is TimedOut || self is Cancelled
    }
}

impl View for TaskEventPayload {
    type V = PayloadView;

    open spec fn view(&self) -> PayloadView {
        match *self {
            TaskEventPayload::Queued => PayloadView::Queued,
            TaskEventPayload::Dispatched { delivery_id, attempt } => PayloadView::Dispatched {
                delivery: delivery_id,
                attempt: attempt as nat,
            },
            TaskEventPayload::Running { started_at } => PayloadView::Running { started_at },
            TaskEventPayload::Completed { output } => PayloadView::Completed { output: output@ },
            TaskEventPayload::Failed { error } => PayloadView::Failed { error: error@ },
            TaskEventPayload::TimedOut { deadline } => PayloadView::TimedOut { deadline },
            TaskEventPayload::Cancelled { reason } => PayloadView::Cancelled { reason: reason@ },
        }
    }
}

/// Whether a deadline has passed.
pub open spec fn expired_at(deadline: Option<Timestamp>, now: Timestamp) -> bool {
    deadline matches Some(at) && at.total() <= now.total()
}

/// The deadline, where it has passed.
pub fn expired(deadline: Option<Timestamp>, now: Timestamp) -> (passed: Option<Timestamp>)
    ensures
        passed == if expired_at(deadline, now) {
            deadline
        } else {
            None::<Timestamp>
        },
{
    match deadline {
        Some(at) => {
            if at.at_or_before(&now) {
                Some(at)
            } else {
                None
            }
        },
        None => None,
    }
}

/// What ends a task at a checkpoint: a cancellation, else a passed deadline.
pub open spec fn checkpoint(
    cancel: Option<Seq<char>>,
    deadline: Option<Timestamp>,
    now: Timestamp,
) -> Option<PayloadView> {
    match cancel {
        Some(reason) => Some(PayloadView::Cancelled { reason }),
        None => if expired_at(deadline, now) {
            Some(PayloadView::TimedOut { deadline: deadline->0 })
        } else {
            None
        },
    }
}

/// The name of a transport.
pub open spec fn transport_name(transport: TransportType) -> Seq<char> {
    match transport {
        TransportType::Acp => "Acp"@,
        TransportType::Matrix => "Matrix"@,
        TransportType::Http => "Http"@,
        TransportType::A2a => "A2a"@,
    }
}

/// What ends a task before it is dispatched, if anything does.
pub open spec fn gate_verdict(
    task: AgentTask,
    endpoints: Seq<EndpointView>,
    reachable: Set<TransportType>,
    config: WorkerConfig,
    cancel: Option<Seq<char>>,
    now: Timestamp,
) -> Option<PayloadView> {
    match checkpoint(cancel, task.deadline, now) {
        Some(payload) => Some(payload),
        None => if config.limits.exceeded(task) {
            Some(PayloadView::Failed { error: config.limits.complaint(task) })
        } else {
            match judged(endpoints, task.to_agent) {
                Err(error) => Some(PayloadView::Failed { error: error.rendered() }),
                Ok(target) => if !reachable.contains(target.transport) {
                    Some(
                        PayloadView::Failed {
                            error: "no dispatcher registered for transport "@ + transport_name(
                                target.transport,
                            ),
                        },
                    )
                } else {
                    None
                },
            }
        },
    }
}

/// Whether a task may be dispatched.
pub enum Gate<'a, D> {
    /// It ends here, with this payload.
    Blocked(TaskEventPayload),
    /// It may, to this target through this dispatcher.
    Open {
        /// The target.
        target: &'a RegisteredEndpoint,
        /// The dispatcher.
        dispatcher: &'a D,
    },
}

/// The cancellation that a run heeds.
pub open spec fn heeded(heeds: bool, recorded: Recorded, task_id: TaskId) -> Option<Seq<char>> {
    if heeds {
        recorded.reason(task_id)
    } else {
        None
    }
}

/// The reason to stop, where the run heeds cancellation.
fn cancel_reason(heeds: bool, cancellation: &Cancellation, task_id: TaskId) -> (reason: Option<
    String,
>)
    ensures
        reason is Some <==> heeded(heeds, cancellation.recorded(), task_id) is Some,
        reason matches Some(text) ==> heeded(heeds, cancellation.recorded(), task_id) == Some(
            text@,
        ),
{
    if heeds {
        cancellation.reason_for(task_id)
    } else {
        None
    }
}

/// What ends the task at a checkpoint, if anything does.
fn at_checkpoint(
    heeds: bool,
    cancellation: &Cancellation,
    task_id: TaskId,
    deadline: Option<Timestamp>,
    now: Timestamp,
) -> (payload: Option<TaskEventPayload>)
    ensures
        payload is Some <==> checkpoint(
            heeded(heeds, cancellation.recorded(), task_id),
            deadline,
            now,
        ) is Some,
        payload matches Some(found) ==> checkpoint(
            heeded(heeds, cancellation.recorded(), task_id),
            deadline,
            now,
        ) == Some(found@),
{
    match cancel_reason(heeds, cancellation, task_id) {
        Some(reason) => Some(TaskEventPayload::Cancelled { reason }),
        None => match expired(deadline, now) {
            Some(deadline) => Some(TaskEventPayload::TimedOut { deadline }),
            None => None,
        },
    }
}

/// The name of a transport.
fn transport_text(transport: TransportType) -> (name: &'static str)
    ensures
        name@ == transport_name(transport),
{
    match transport {
        TransportType::Acp => "Acp",
        TransportType::Matrix => "Matrix",
        TransportType::Http => "Http",
        TransportType::A2a => "A2a",
    }
}

/// Judges a task that the worker is about to dispatch: cancelled, expired, over a
/// limit, without a usable target, without a dispatcher, in this order.
pub fn gate<'a, D>(
    task: &AgentTask,
    registry: &'a EndpointRegistry,
    dispatchers: &'a DispatcherRegistry<D>,
    config: &WorkerConfig,
    cancellation: &Cancellation,
    now: Timestamp,
) -> (verdict: Gate<'a, D>)
    requires
        dispatchers.wf(),
    ensures
        ({
            let expected = gate_verdict(
                *task,
                registry@,
                dispatchers.table().dom(),
                *config,
                heeded(config.cancellation, cancellation.recorded(), task.task_id),
                now,
            );
            match verdict {
                Gate::Blocked(payload) => expected == Some(payload@),
                Gate::Open { target, dispatcher } => {
                    &&& expected is None
                    &&& judged(registry@, task.to_agent) == Ok::<EndpointView, BusError>(target@)
                    &&& *dispatcher == dispatchers.table()[target@.transport]
                },
            }
        }),
{
    match at_checkpoint(config.cancellation, cancellation, task.task_id, task.deadline, now) {
        Some(payload) => {
            return Gate::Blocked(payload);
        },
        None => {},
    }
    match config.limits.violation(task) {
        Some(error) => {
            return Gate::Blocked(TaskEventPayload::Failed { error });
        },
        None => {},
    }
    match registry.validate_target(task.to_agent) {
        Err(error) => Gate::Blocked(TaskEventPayload::Failed { error: error.to_string() }),
        Ok(target) => match dispatchers.get(target.transport()) {
            Some(dispatcher) => Gate::Open { target, dispatcher },
            None => {
                let mut error = "no dispatcher registered for transport ".to_owned();
                error.append(transport_text(target.transport()));
                Gate::Blocked(TaskEventPayload::Failed { error })
            },
        },
    }
}

/// A task that is cancelled, expired or over a limit is never handed to a dispatcher,
/// whatever its target; an explicit cancellation outranks the clock, and the clock the
/// limits.
pub proof fn law_the_gate_blocks_in_order(
    task: AgentTask,
    endpoints: Seq<EndpointView>,
    reachable: Set<TransportType>,
    config: WorkerConfig,
    cancel: Option<Seq<char>>,
    now: Timestamp,
)
    ensures
        ({
            let verdict = gate_verdict(task, endpoints, reachable, config, cancel, now);
            &&& cancel matches Some(reason) ==> verdict == Some(PayloadView::Cancelled { reason })
            &&& cancel is None && expired_at(task.deadline, now) ==> verdict == Some(
                PayloadView::TimedOut { deadline: task.deadline->0 },
            )
            &&& cancel is None && !expired_at(task.deadline, now) && config.limits.exceeded(task)
                ==> verdict == Some(PayloadView::Failed { error: config.limits.complaint(task) })
            &&& verdict matches Some(payload) ==> payload.terminal()
            &&& verdict is None ==> judged(endpoints, task.to_agent) is Ok
        }),
{
}

/// What ended a wait: the thing waited for, a cancellation, or the deadline.
#[derive(Debug)]
pub enum Raced<T> {
    /// The thing waited for.
    Done(T),
    /// A cancellation, with its reason.
    Cancelled(String),
    /// The deadline.
    TimedOut(Timestamp),
}

/// What is fixed for the whole run.
#[derive(Debug, Clone, Copy, PartialEq, Eq, Structural)]
pub struct RunSettings {
    /// Attempts and waits.
    pub retry: RetryPolicy,
    /// Whether the run heeds cancellation.
    pub cancellation: bool,
    /// Whether a backoff can be waited out.
    pub timer: bool,
    /// Whether transitions are recorded durably before they are announced.
    pub lifecycle: bool,
    /// Whether the dispatcher hands its terminal event to an authority of its own.
    pub prepared: bool,
}

/// Why an event is written.
#[derive(Debug, Clone, Copy, PartialEq, Eq, Structural)]
pub enum Purpose {
    /// A delivery attempt begins.
    Dispatch,
    /// The agent accepted.
    Start,
    /// The task ends.
    Terminal,
    /// The task ended, as its authority has confirmed.
    Finalized,
}

/// What the run waits for.
enum Stage {
    Claiming,
    Writing { recorded: bool, purpose: Purpose, event: TaskEvent },
    Marking,
    Renewing,
    Delivering,
    ReportingFailure { event: TaskEvent },
    Executing,
    BackingOff,
    Releasing { payload: TaskEventPayload },
    Finalizing { event: TaskEvent },
    Done { result: Result<(), WorkerError> },
}

/// What the run waits for.
pub ghost enum StageView {
    /// The durable queue entry.
    Claiming,
    /// An event to be recorded durably, and then to be announced.
    Writing { recorded: bool, purpose: Purpose, payload: PayloadView },
    /// The mark that sending began.
    Marking,
    /// The renewal of the lease.
    Renewing,
    /// The delivery.
    Delivering,
    /// The dispatcher's own record of a failed delivery.
    ReportingFailure { payload: PayloadView },
    /// The execution.
    Executing,
    /// The end of the wait before the next attempt.
    BackingOff,
    /// The dispatcher's release of a prepared execution.
    Releasing { payload: PayloadView },
    /// The authority's answer to the terminal event.
    Finalizing { payload: PayloadView },
    /// Nothing: the run is over.
    Done { result: Result<(), WorkerError> },
}

/// What is known of a run.
#[verifier::ext_equal]
pub ghost struct RunView {
    pub task_id: TaskId,
    pub deadline: Option<Timestamp>,
    pub settings: RunSettings,
    /// The next sequence number.
    pub seq: nat,
    /// The attempt under way.
    pub attempt: nat,
    /// Identity of the attempt under way, or drawn for the first one.
    pub delivery: DeliveryId,
    /// Whether there is a lease to renew.
    pub leased: bool,
    pub stage: StageView,
}

/// What came of an action.
#[derive(Debug)]
pub enum RunInput {
    /// The durable queue entry was claimed, with a lease where there is one.
    Claimed(Result<Option<QueueLeaseContext>, DispatchError>),
    /// The event was recorded durably.
    Recorded(Result<LifecycleResult, DispatchError>),
    /// The event was announced.
    Emitted(Result<(), BusError>),
    /// The mark was set.
    SendMarked(Result<(), DispatchError>),
    /// The lease was renewed.
    Renewed(Result<(), DispatchError>),
    /// The delivery ended.
    Delivered(Raced<Result<(), DispatchError>>),
    /// The dispatcher recorded the failed delivery.
    FailureReported(Result<(), DispatchError>),
    /// The execution ended.
    Executed(Raced<Result<DispatchOutcome, DispatchError>>),
    /// The wait ended.
    Waited(Raced<()>),
    /// Whether the dispatcher released the prepared execution.
    Released(bool),
    /// The authority's answer, where there was one.
    Finalized(Option<FinalizeResult>),
}

/// What the driver is asked to do.
#[derive(Debug)]
pub enum RunAction {
    /// Claim the durable queue entry.
    ClaimQueue,
    /// Record an event durably.
    Record(TaskEvent),
    /// Announce an event.
    Emit(TaskEvent),
    /// Mark that sending began.
    MarkSendStarted,
    /// Renew the lease.
    RenewLease,
    /// Deliver the task, racing cancellation and the deadline.
    Deliver {
        /// Identity of the attempt.
        delivery_id: DeliveryId,
        /// Number of the attempt.
        attempt: u32,
    },
    /// Have the dispatcher record a failed delivery.
    ReportFailure(TaskEvent),
    /// Execute the accepted task, racing cancellation and the deadline.
    Execute {
        /// Identity of the attempt.
        delivery_id: DeliveryId,
        /// Number of the attempt.
        attempt: u32,
    },
    /// Wait until an instant, racing cancellation and the deadline.
    WaitUntil(Timestamp),
    /// Have the dispatcher release a prepared execution.
    ReleasePrepared {
        /// Why.
        reason: String,
    },
    /// Hand the terminal event to the authority that owns it.
    Finalize(TaskEvent),
    /// Stop, with this result.
    Return(Result<(), WorkerError>),
}

/// Whether an input answers what a stage waits for.
pub open spec fn answers(stage: StageView, input: RunInput) -> bool {
    match stage {
        StageView::Claiming => input is Claimed,
        StageView::Writing { recorded, .. } => if recorded {
            input is Emitted
        } else {
            input is Recorded
        },
        StageView::Marking => input is SendMarked,
        StageView::Renewing => input is Renewed,
        StageView::Delivering => input is Delivered,
        StageView::ReportingFailure { .. } => input is FailureReported,
        StageView::Executing => input is Executed,
        StageView::BackingOff => input is Waited,
        StageView::Releasing { .. } => input is Released,
        StageView::Finalizing { .. } => input is Finalized,
        StageView::Done { .. } => false,
    }
}

/// How a failed announcement stops the worker.
pub open spec fn classified(error: BusError, task_id: TaskId, seq: u64) -> WorkerError {
    match error {
        BusError::EventSinkClosed => WorkerError::EventStreamClosed { task_id, seq },
        BusError::EventBufferFull => WorkerError::EventBackpressure { task_id, seq },
        _ => WorkerError::EventWrite { task_id, seq, error },
    }
}

impl RunView {
    /// The run, waiting for something else.
    pub open spec fn waits(self, stage: StageView) -> RunView {
        RunView { stage, ..self }
    }

    /// The run, writing an event.
    pub open spec fn writes(self, purpose: Purpose, payload: PayloadView) -> RunView {
        self.waits(
            StageView::Writing { recorded: !self.settings.lifecycle, purpose, payload },
        )
    }

    /// The run, ending the task.
    pub open spec fn ends(self, payload: PayloadView) -> RunView {
        self.writes(Purpose::Terminal, payload)
    }

    /// The run, failing the task.
    pub open spec fn fails(self, error: Seq<char>) -> RunView {
        self.ends(PayloadView::Failed { error })
    }

    /// The run, stopped because its authority did not confirm a transition.
    pub open spec fn unconfirmed(self) -> RunView {
        self.waits(
            StageView::Done {
                result: Err(
                    WorkerError::EventWrite {
                        task_id: self.task_id,
                        seq: self.seq as u64,
                        error: BusError::TaskChannelClosed,
                    },
                ),
            },
        )
    }

    /// The run at the start of an attempt, for which the identity `drawn` was drawn.
    pub open spec fn attempts(
        self,
        cancel: Option<Seq<char>>,
        now: Timestamp,
        drawn: DeliveryId,
    ) -> RunView {
        match checkpoint(cancel, self.deadline, now) {
            Some(payload) => self.ends(payload),
            None => RunView { delivery: drawn, ..self }.writes(
                Purpose::Dispatch,
                PayloadView::Dispatched { delivery: drawn, attempt: self.attempt },
            ),
        }
    }

    /// The run after a refused stage: the next attempt, at once or after a wait, where
    /// the error is transient, an attempt is left and the deadline has not passed; the
    /// end of the task otherwise.
    pub open spec fn refused(
        self,
        error: DispatchError,
        cancel: Option<Seq<char>>,
        now: Timestamp,
        drawn: DeliveryId,
    ) -> RunView {
        if !error.transient() || !self.settings.retry.allows_after(self.attempt as int)
            || expired_at(self.deadline, now) {
            self.fails(error.rendered())
        } else if self.settings.retry.backoff.delay(self.attempt as u32) == 0
            || !self.settings.timer {
            RunView { attempt: self.attempt + 1, ..self }.attempts(cancel, now, drawn)
        } else {
            self.waits(StageView::BackingOff)
        }
    }

    /// The run after a delivery ended.
    pub open spec fn delivered(
        self,
        raced: Raced<Result<(), DispatchError>>,
        cancel: Option<Seq<char>>,
        now: Timestamp,
        drawn: DeliveryId,
    ) -> RunView {
        match raced {
            Raced::Done(Ok(())) => match checkpoint(cancel, self.deadline, now) {
                Some(payload) => if self.settings.prepared {
                    self.waits(StageView::Releasing { payload })
                } else {
                    self.ends(payload)
                },
                None => self.writes(Purpose::Start, PayloadView::Running { started_at: now }),
            },
            Raced::Done(Err(error)) => if self.settings.prepared {
                self.waits(
                    StageView::ReportingFailure {
                        payload: PayloadView::Failed { error: error.rendered() },
                    },
                )
            } else {
                self.refused(error, cancel, now, drawn)
            },
            Raced::Cancelled(reason) => self.ends(PayloadView::Cancelled { reason: reason@ }),
            Raced::TimedOut(deadline) => self.ends(PayloadView::TimedOut { deadline }),
        }
    }

    /// The run after an execution ended.
    pub open spec fn executed(
        self,
        raced: Raced<Result<DispatchOutcome, DispatchError>>,
        cancel: Option<Seq<char>>,
        now: Timestamp,
        drawn: DeliveryId,
    ) -> RunView {
        match raced {
            Raced::Done(Ok(DispatchOutcome::Completed { output })) => {
                let payload = PayloadView::Completed { output: output@ };
                if self.settings.prepared {
                    self.waits(StageView::Finalizing { payload })
                } else {
                    self.ends(payload)
                }
            },
            Raced::Done(Ok(DispatchOutcome::Failed { error })) => {
                let payload = PayloadView::Failed { error: error@ };
                if self.settings.prepared {
                    self.waits(StageView::Finalizing { payload })
                } else {
                    self.ends(payload)
                }
            },
            Raced::Done(Err(error)) => if self.settings.prepared {
                self.fails(error.rendered())
            } else {
                self.refused(error, cancel, now, drawn)
            },
            Raced::Cancelled(reason) => {
                let payload = PayloadView::Cancelled { reason: reason@ };
                if self.settings.prepared {
                    self.waits(StageView::Releasing { payload })
                } else {
                    self.ends(payload)
                }
            },
            Raced::TimedOut(deadline) => {
                let payload = PayloadView::TimedOut { deadline };
                if self.settings.prepared {
                    self.waits(StageView::Releasing { payload })
                } else {
                    self.ends(payload)
                }
            },
        }
    }

    /// The run after the wait before the next attempt ended.
    pub open spec fn waited(
        self,
        raced: Raced<()>,
        cancel: Option<Seq<char>>,
        now: Timestamp,
        drawn: DeliveryId,
    ) -> RunView {
        match raced {
            Raced::Done(()) => RunView { attempt: self.attempt + 1, ..self }.attempts(
                cancel,
                now,
                drawn,
            ),
            Raced::Cancelled(reason) => self.ends(PayloadView::Cancelled { reason: reason@ }),
            Raced::TimedOut(deadline) => self.ends(PayloadView::TimedOut { deadline }),
        }
    }

    /// The run after an event was announced.
    pub open spec fn written(self, purpose: Purpose) -> RunView {
        match purpose {
            Purpose::Dispatch => RunView { seq: self.seq + 1, ..self }.waits(
                if self.leased {
                    StageView::Marking
                } else {
                    StageView::Delivering
                },
            ),
            Purpose::Start => RunView { seq: self.seq + 1, ..self }.waits(
                StageView::Executing,
            ),
            Purpose::Terminal | Purpose::Finalized => self.waits(
                StageView::Done { result: Ok(()) },
            ),
        }
    }

    /// The run after an input. Where that starts an attempt, `drawn` is its identity.
    pub open spec fn next(
        self,
        cancel: Option<Seq<char>>,
        now: Timestamp,
        drawn: DeliveryId,
        input: RunInput,
    ) -> RunView {
        match (self.stage, input) {
            (StageView::Claiming, RunInput::Claimed(Err(error))) => self.fails(error.rendered()),
            (StageView::Claiming, RunInput::Claimed(Ok(lease))) => RunView {
                leased: lease is Some,
                ..self
            }.attempts(cancel, now, drawn),
            (StageView::Writing { purpose, payload, .. }, RunInput::Recorded(recorded)) => {
                if recorded matches Ok(result) && result != LifecycleResult::Stale {
                    self.waits(StageView::Writing { recorded: true, purpose, payload })
                } else {
                    self.unconfirmed()
                }
            },
            (StageView::Writing { .. }, RunInput::Emitted(Err(error))) => self.waits(
                StageView::Done {
                    result: Err(classified(error, self.task_id, self.seq as u64)),
                },
            ),
            (StageView::Writing { purpose, .. }, RunInput::Emitted(Ok(()))) => self.written(purpose),
            (StageView::Marking, RunInput::SendMarked(Err(error))) => self.fails(error.rendered()),
            (StageView::Marking, RunInput::SendMarked(Ok(()))) => self.waits(StageView::Renewing),
            (StageView::Renewing, RunInput::Renewed(Err(error))) => self.fails(error.rendered()),
            (StageView::Renewing, RunInput::Renewed(Ok(()))) => self.waits(StageView::Delivering),
            (StageView::Delivering, RunInput::Delivered(raced)) => self.delivered(
                raced,
                cancel,
                now,
                drawn,
            ),
            (StageView::ReportingFailure { .. }, RunInput::FailureReported(reported)) => {
                if reported is Ok {
                    self.waits(StageView::Done { result: Ok(()) })
                } else {
                    self.unconfirmed()
                }
            },
            (StageView::Executing, RunInput::Executed(raced)) => self.executed(
                raced,
                cancel,
                now,
                drawn,
            ),
            (StageView::BackingOff, RunInput::Waited(raced)) => self.waited(
                raced,
                cancel,
                now,
                drawn,
            ),
            (StageView::Releasing { payload }, RunInput::Released(released)) => if released {
                self.waits(StageView::Finalizing { payload })
            } else {
                self.unconfirmed()
            },
            (StageView::Finalizing { payload }, RunInput::Finalized(reply)) => {
                if reply == Some(FinalizeResult::Committed) || reply == Some(
                    FinalizeResult::AlreadyTerminal,
                ) {
                    self.writes(Purpose::Finalized, payload)
                } else {
                    self.unconfirmed()
                }
            },
            _ => self,
        }
    }

    /// Whether an input starts an attempt.
    pub open spec fn starts_attempt(
        self,
        cancel: Option<Seq<char>>,
        now: Timestamp,
        input: RunInput,
    ) -> bool {
        !(input is Recorded) && (self.next(cancel, now, self.delivery, input).stage matches
            StageView::Writing { purpose, .. } && purpose == Purpose::Dispatch)
    }

    /// Whether an input that ends the run also ends the worker's interest in a
    /// cancellation of the task. A terminal event gives it up even where it could not
    /// be written: the worker stops then, and the task is never taken up again.
    pub open spec fn retires(self, input: RunInput) -> bool {
        match (self.stage, input) {
            (StageView::Writing { purpose, .. }, RunInput::Recorded(recorded)) => purpose
                == Purpose::Terminal && !(recorded matches Ok(result) && result
                != LifecycleResult::Stale),
            (StageView::Writing { purpose, .. }, RunInput::Emitted(emitted)) => purpose
                == Purpose::Terminal || (purpose == Purpose::Finalized && emitted is Ok),
            (StageView::ReportingFailure { .. }, RunInput::FailureReported(reported)) => reported
                is Ok,
            _ => false,
        }
    }

    /// What is recorded of cancellations after an input.
    pub open spec fn left_recorded(self, recorded: Recorded, input: RunInput) -> Recorded {
        if self.settings.cancellation && self.retires(input) {
            recorded.finished(self.task_id)
        } else {
            recorded
        }
    }

    /// The numbers stay in range: an attempt takes at most two sequence numbers.
    pub open spec fn wf(self) -> bool {
        &&& 1 <= self.attempt <= u32::MAX
        &&& 2 <= self.seq <= 2 * self.attempt + 2
        &&& self.attempt == 1 || self.attempt <= self.settings.retry.max_attempts
        &&& match self.stage {
            StageView::Claiming => self.seq <= 2 * self.attempt,
            StageView::Writing { purpose, payload, .. } => match purpose {
                Purpose::Dispatch => self.seq <= 2 * self.attempt && payload
                    == (PayloadView::Dispatched {
                    delivery: self.delivery,
                    attempt: self.attempt,
                }),
                Purpose::Start => self.seq <= 2 * self.attempt + 1 && payload is Running,
                Purpose::Terminal | Purpose::Finalized => payload.terminal(),
            },
            StageView::Marking | StageView::Renewing | StageView::Delivering => self.seq <= 2
                * self.attempt + 1,
            StageView::BackingOff => self.settings.retry.allows_after(self.attempt as int)
                && self.settings.retry.backoff.delay(self.attempt as u32) != 0,
            StageView::Releasing { payload } => payload.terminal(),
            StageView::Finalizing { payload } => payload.terminal(),
            StageView::ReportingFailure { payload } => payload.terminal(),
            _ => true,
        }
    }
}

/// Every input keeps the numbers in range.
pub proof fn lemma_next_keeps_range(
    run: RunView,
    cancel: Option<Seq<char>>,
    now: Timestamp,
    drawn: DeliveryId,
    input: RunInput,
)
    requires
        run.wf(),
        answers(run.stage, input),
    ensures
        run.next(cancel, now, drawn, input).wf(),
{
}

/// An attempt has the identity that was drawn for it, and keeps it.
pub proof fn lemma_an_attempt_gets_what_was_drawn(
    run: RunView,
    cancel: Option<Seq<char>>,
    now: Timestamp,
    drawn: DeliveryId,
    input: RunInput,
)
    requires
        answers(run.stage, input),
    ensures
        run.next(cancel, now, drawn, input).delivery == if run.starts_attempt(cancel, now, input) {
            drawn
        } else {
            run.delivery
        },
{
}

/// The state of one task's run.
pub struct TaskRun {
    task_id: TaskId,
    deadline: Option<Timestamp>,
    settings: RunSettings,
    seq: u64,
    attempt: u32,
    lease: Option<QueueLeaseContext>,
    delivery: DeliveryId,
    stage: Stage,
}

impl View for TaskRun {
    type V = RunView;

    closed spec fn view(&self) -> RunView {
        RunView {
            task_id: self.task_id,
            deadline: self.deadline,
            settings: self.settings,
            seq: self.seq as nat,
            attempt: self.attempt as nat,
            delivery: self.delivery,
            leased: self.lease is Some,
            stage: match self.stage {
                Stage::Claiming => StageView::Claiming,
                Stage::Writing { recorded, purpose, event } => StageView::Writing {
                    recorded,
                    purpose,
                    payload: event.payload@,
                },
                Stage::Marking => StageView::Marking,
                Stage::Renewing => StageView::Renewing,
                Stage::Delivering => StageView::Delivering,
                Stage::ReportingFailure { event } => StageView::ReportingFailure {
                    payload: event.payload@,
                },
                Stage::Executing => StageView::Executing,
                Stage::BackingOff => StageView::BackingOff,
                Stage::Releasing { payload } => StageView::Releasing { payload: payload@ },
                Stage::Finalizing { event } => StageView::Finalizing { payload: event.payload@ },
                Stage::Done { result } => StageView::Done { result },
            },
        }
    }
}

/// A run before anything happened to its task.
pub open spec fn fresh_run(task: AgentTask, settings: RunSettings, drawn: DeliveryId) -> RunView {
    RunView {
        task_id: task.task_id,
        deadline: task.deadline,
        settings,
        seq: 2,
        attempt: 1,
        delivery: drawn,
        leased: false,
        stage: StageView::Claiming,
    }
}

/// A run that may be dispatched, at its start.
pub open spec fn begun(
    task: AgentTask,
    settings: RunSettings,
    cancel: Option<Seq<char>>,
    now: Timestamp,
    drawn: DeliveryId,
) -> RunView {
    let run = fresh_run(task, settings, drawn);
    if settings.lifecycle {
        run
    } else {
        run.attempts(cancel, now, drawn)
    }
}

/// Whether an event is the one a run announces with `payload`.
pub open spec fn event_of(run: RunView, event: TaskEvent, payload: PayloadView) -> bool {
    &&& is_version_7(event.id.bits())
    &&& event.task_id == run.task_id
    &&& event.seq == run.seq
    &&& event.payload@ == payload
    &&& event.status == event.payload.status_of()
}

/// The event that an action is about.
pub open spec fn told_event(action: RunAction) -> Option<TaskEvent> {
    match action {
        RunAction::Record(event) => Some(event),
        RunAction::Emit(event) => Some(event),
        RunAction::ReportFailure(event) => Some(event),
        RunAction::Finalize(event) => Some(event),
        _ => None,
    }
}

/// Whether an action is what a run in this state asks for.
pub open spec fn asked(run: RunView, now: Timestamp, action: RunAction) -> bool {
    match run.stage {
        StageView::Claiming => action is ClaimQueue,
        StageView::Writing { recorded, purpose: _, payload } => {
            let event = if recorded {
                action->Emit_0
            } else {
                action->Record_0
            };
            &&& if recorded {
                action is Emit
            } else {
                action is Record
            }
            &&& event_of(run, event, payload)
        },
        StageView::Marking => action is MarkSendStarted,
        StageView::Renewing => action is RenewLease,
        StageView::Delivering => action matches RunAction::Deliver { delivery_id, attempt }
            && delivery_id == run.delivery && attempt == run.attempt,
        StageView::ReportingFailure { payload } => action matches RunAction::ReportFailure(event)
            && event_of(run, event, payload),
        StageView::Executing => action matches RunAction::Execute { delivery_id, attempt }
            && delivery_id == run.delivery && attempt == run.attempt,
        StageView::BackingOff => action matches RunAction::WaitUntil(until) && until.total() == {
            let end = now.total() + run.settings.retry.backoff.delay(run.attempt as u32);
            if end <= crate::time::max_instant() {
                end
            } else {
                crate::time::max_instant()
            }
        },
        StageView::Releasing { payload } => action matches RunAction::ReleasePrepared { reason }
            && reason@ == match payload {
            PayloadView::Cancelled { reason } => reason,
            _ => "task deadline elapsed"@,
        },
        StageView::Finalizing { payload } => action matches RunAction::Finalize(event)
            && event_of(run, event, payload),
        StageView::Done { result } => action matches RunAction::Return(returned) && returned
            == result,
    }
}

/// Whether `action` is what a run asks for after an input, about the event under way,
/// with the lease that it holds.
pub open spec fn stepped(
    before: TaskRun,
    after: TaskRun,
    now: Timestamp,
    input: RunInput,
    action: RunAction,
) -> bool {
    &&& after.wf()
    &&& asked(after@, now, action)
    &&& if input is Recorded || input is Finalized {
        after.announces_again(before, action)
    } else {
        after.announces(action, now)
    }
    &&& after.lease_of() == match input {
        RunInput::Claimed(Ok(lease)) => lease,
        _ => before.lease_of(),
    }
}

impl TaskRun {
    /// The lease that the run holds.
    pub closed spec fn lease_of(&self) -> Option<QueueLeaseContext> {
        self.lease
    }

    /// The event that the run waits to see written.
    pub closed spec fn under_way(&self) -> Option<TaskEvent> {
        match self.stage {
            Stage::Writing { event, .. } => Some(event),
            Stage::ReportingFailure { event } => Some(event),
            Stage::Finalizing { event } => Some(event),
            _ => None,
        }
    }

    /// Whether an event that `action` is about was made at `now`, and is the one under
    /// way.
    pub open spec fn announces(&self, action: RunAction, now: Timestamp) -> bool {
        told_event(action) matches Some(event) ==> event.timestamp == now && self.under_way()
            == Some(event)
    }

    /// Whether an event that `action` is about is the one that was under way before.
    pub open spec fn announces_again(&self, before: TaskRun, action: RunAction) -> bool {
        told_event(action) matches Some(event) ==> self.under_way() == Some(event)
            && before.under_way() == Some(event)
    }

    /// The numbers are in range, and the event under way is this run's.
    pub closed spec fn wf(&self) -> bool {
        &&& self@.wf()
        &&& match self.stage {
            Stage::Writing { event, .. } => event_of(self@, event, event.payload@),
            Stage::ReportingFailure { event } => event_of(self@, event, event.payload@),
            Stage::Finalizing { event } => event_of(self@, event, event.payload@),
            _ => true,
        }
    }

    fn event(&self, payload: TaskEventPayload, now: Timestamp) -> (event: TaskEvent)
        ensures
            event_of(self@, event, payload@),
            event.payload == payload,
            event.timestamp == now,
    {
        let status = payload.status();
        TaskEvent {
            id: EventId::generate(),
            task_id: self.task_id,
            seq: self.seq,
            status,
            timestamp: now,
            payload,
        }
    }

    fn write(&mut self, purpose: Purpose, payload: TaskEventPayload, now: Timestamp) -> (action:
        RunAction)
        requires
            old(self)@.writes(purpose, payload@).wf(),
        ensures
            final(self).wf(),
            final(self)@ == old(self)@.writes(purpose, payload@),
            final(self).lease_of() == old(self).lease_of(),
            asked(final(self)@, now, action),
            final(self).announces(action, now),
    {
        let event = self.event(payload, now);
        let copy = event.duplicate();
        let recorded = !self.settings.lifecycle;
        self.stage = Stage::Writing { recorded, purpose, event };
        assert(self@ =~= old(self)@.writes(purpose, payload@));
        if recorded {
            RunAction::Emit(copy)
        } else {
            RunAction::Record(copy)
        }
    }

    fn end(&mut self, payload: TaskEventPayload, now: Timestamp) -> (action: RunAction)
        requires
            old(self)@.ends(payload@).wf(),
        ensures
            final(self).wf(),
            final(self)@ == old(self)@.ends(payload@),
            final(self).lease_of() == old(self).lease_of(),
            asked(final(self)@, now, action),
            final(self).announces(action, now),
    {
        self.write(Purpose::Terminal, payload, now)
    }

    fn fail(&mut self, error: &DispatchError, now: Timestamp) -> (action: RunAction)
        requires
            old(self)@.fails(error.rendered()).wf(),
        ensures
            final(self).wf(),
            final(self)@ == old(self)@.fails(error.rendered()),
            final(self).lease_of() == old(self).lease_of(),
            asked(final(self)@, now, action),
            final(self).announces(action, now),
    {
        self.end(TaskEventPayload::Failed { error: error.to_string() }, now)
    }

    fn stop(&mut self, result: Result<(), WorkerError>) -> (action: RunAction)
        requires
            old(self)@.wf(),
        ensures
            final(self).wf(),
            final(self)@ == old(self)@.waits(StageView::Done { result }),
            final(self).lease_of() == old(self).lease_of(),
            action == RunAction::Return(result),
    {
        self.stage = Stage::Done { result };
        assert(self@ =~= old(self)@.waits(StageView::Done { result }));
        RunAction::Return(result)
    }

    fn unconfirmed(&mut self) -> (action: RunAction)
        requires
            old(self)@.wf(),
        ensures
            final(self).wf(),
            final(self)@ == old(self)@.unconfirmed(),
            final(self).lease_of() == old(self).lease_of(),
            forall|now: Timestamp| asked(final(self)@, now, action),
            told_event(action) is None,
    {
        let error = WorkerError::EventWrite {
            task_id: self.task_id,
            seq: self.seq,
            error: BusError::TaskChannelClosed,
        };
        self.stop(Err(error))
    }

    fn attempt_now(&mut self, cancellation: &Cancellation, now: Timestamp, drawn: DeliveryId) -> (
        action: RunAction)
        requires
            1 <= old(self)@.attempt,
            2 <= old(self)@.seq <= 2 * old(self)@.attempt,
            old(self)@.attempt == 1 || old(self)@.attempt
                <= old(self)@.settings.retry.max_attempts,
        ensures
            final(self).wf(),
            final(self)@ == old(self)@.attempts(
                heeded(
                    old(self)@.settings.cancellation,
                    cancellation.recorded(),
                    old(self)@.task_id,
                ),
                now,
                drawn,
            ),
            final(self).lease_of() == old(self).lease_of(),
            asked(final(self)@, now, action),
            final(self).announces(action, now),
    {
        match at_checkpoint(
            self.settings.cancellation,
            cancellation,
            self.task_id,
            self.deadline,
            now,
        ) {
            Some(payload) => self.end(payload, now),
            None => {
                self.delivery = drawn;
                let payload = TaskEventPayload::Dispatched {
                    delivery_id: self.delivery,
                    attempt: self.attempt,
                };
                assert(self@ =~= (RunView { delivery: drawn, ..old(self)@ }));
                self.write(Purpose::Dispatch, payload, now)
            },
        }
    }

    fn refuse(
        &mut self,
        error: &DispatchError,
        cancellation: &Cancellation,
        now: Timestamp,
        drawn: DeliveryId,
    ) -> (action: RunAction)
        requires
            old(self)@.wf(),
        ensures
            final(self).wf(),
            final(self)@ == old(self)@.refused(
                *error,
                heeded(
                    old(self)@.settings.cancellation,
                    cancellation.recorded(),
                    old(self)@.task_id,
                ),
                now,
                drawn,
            ),
            final(self).lease_of() == old(self).lease_of(),
            asked(final(self)@, now, action),
            final(self).announces(action, now),
    {
        if !error.is_transient() || !self.settings.retry.allows_another_attempt_after(self.attempt)
            || expired(self.deadline, now).is_some() {
            return self.fail(error, now);
        }
        let delay = self.settings.retry.backoff.delay_for(self.attempt);
        if delay.is_zero() || !self.settings.timer {
            self.attempt = self.attempt + 1;
            assert(self@ =~= (RunView { attempt: old(self)@.attempt + 1, ..old(self)@ }));
            self.attempt_now(cancellation, now, drawn)
        } else {
            self.stage = Stage::BackingOff;
            assert(self@ =~= old(self)@.waits(StageView::BackingOff));
            RunAction::WaitUntil(now.saturating_add(delay))
        }
    }

    fn report_failure(&mut self, error: &DispatchError, now: Timestamp) -> (action: RunAction)
        requires
            old(self)@.wf(),
        ensures
            final(self).wf(),
            final(self)@ == old(self)@.waits(
                StageView::ReportingFailure {
                    payload: PayloadView::Failed { error: error.rendered() },
                },
            ),
            final(self).lease_of() == old(self).lease_of(),
            asked(final(self)@, now, action),
            final(self).announces(action, now),
    {
        let event = self.event(TaskEventPayload::Failed { error: error.to_string() }, now);
        let copy = event.duplicate();
        self.stage = Stage::ReportingFailure { event };
        assert(self@ =~= old(self)@.waits(
            StageView::ReportingFailure {
                payload: PayloadView::Failed { error: error.rendered() },
            },
        ));
        RunAction::ReportFailure(copy)
    }

    fn release(&mut self, payload: TaskEventPayload, now: Timestamp) -> (action: RunAction)
        requires
            old(self)@.wf(),
            payload@ is Cancelled || payload@ is TimedOut,
        ensures
            final(self).wf(),
            final(self)@ == old(self)@.waits(StageView::Releasing { payload: payload@ }),
            final(self).lease_of() == old(self).lease_of(),
            asked(final(self)@, now, action),
            final(self).announces(action, now),
    {
        let reason = match &payload {
            TaskEventPayload::Cancelled { reason } => reason.clone(),
            _ => "task deadline elapsed".to_owned(),
        };
        self.stage = Stage::Releasing { payload };
        assert(self@ =~= old(self)@.waits(StageView::Releasing { payload: payload@ }));
        RunAction::ReleasePrepared { reason }
    }

    fn finalize(&mut self, payload: TaskEventPayload, now: Timestamp) -> (action: RunAction)
        requires
            old(self)@.wf(),
            payload@.terminal(),
        ensures
            final(self).wf(),
            final(self)@ == old(self)@.waits(StageView::Finalizing { payload: payload@ }),
            final(self).lease_of() == old(self).lease_of(),
            asked(final(self)@, now, action),
            final(self).announces(action, now),
    {
        let event = self.event(payload, now);
        let copy = event.duplicate();
        self.stage = Stage::Finalizing { event };
        assert(self@ =~= old(self)@.waits(StageView::Finalizing { payload: payload@ }));
        RunAction::Finalize(copy)
    }

    /// Ends the task here, or has the dispatcher release it first.
    fn end_or_release(&mut self, payload: TaskEventPayload, now: Timestamp) -> (action: RunAction)
        requires
            old(self)@.wf(),
            payload@ is Cancelled || payload@ is TimedOut,
        ensures
            final(self).wf(),
            final(self)@ == if old(self)@.settings.prepared {
                old(self)@.waits(StageView::Releasing { payload: payload@ })
            } else {
                old(self)@.ends(payload@)
            },
            final(self).lease_of() == old(self).lease_of(),
            asked(final(self)@, now, action),
            final(self).announces(action, now),
    {
        if self.settings.prepared {
            self.release(payload, now)
        } else {
            self.end(payload, now)
        }
    }

    /// A run that ends before it is dispatched.
    pub fn blocked(
        task: &AgentTask,
        settings: RunSettings,
        payload: TaskEventPayload,
        now: Timestamp,
    ) -> (started: (TaskRun, RunAction))
        requires
            payload@.terminal(),
        ensures
            started.0.wf(),
            started.0@ == (RunView {
                task_id: task.task_id,
                deadline: task.deadline,
                settings,
                seq: 2,
                attempt: 1,
                delivery: started.0@.delivery,
                leased: false,
                stage: StageView::Writing {
                    recorded: !settings.lifecycle,
                    purpose: Purpose::Terminal,
                    payload: payload@,
                },
            }),
            is_version_7(started.0@.delivery.bits()),
            asked(started.0@, now, started.1),
            started.0.announces(started.1, now),
    {
        let mut run = TaskRun {
            task_id: task.task_id,
            deadline: task.deadline,
            settings,
            seq: 2,
            attempt: 1,
            lease: None,
            delivery: DeliveryId::generate(),
            stage: Stage::Claiming,
        };
        let action = run.end(payload, now);
        (run, action)
    }

    /// A run that may be dispatched. It claims its durable queue entry first, where
    /// transitions are recorded durably. The identity of the attempt is drawn.
    pub fn begin(
        task: &AgentTask,
        settings: RunSettings,
        cancellation: &Cancellation,
        now: Timestamp,
    ) -> (started: (TaskRun, RunAction))
        ensures
            started.0.wf(),
            started.0@ == begun(
                *task,
                settings,
                heeded(settings.cancellation, cancellation.recorded(), task.task_id),
                now,
                started.0@.delivery,
            ),
            is_version_7(started.0@.delivery.bits()),
            asked(started.0@, now, started.1),
            started.0.announces(started.1, now),
    {
        TaskRun::begin_drawn(task, settings, cancellation, now, DeliveryId::generate())
    }

    /// A run that may be dispatched, for whose first attempt `drawn` was drawn.
    pub fn begin_drawn(
        task: &AgentTask,
        settings: RunSettings,
        cancellation: &Cancellation,
        now: Timestamp,
        drawn: DeliveryId,
    ) -> (started: (TaskRun, RunAction))
        ensures
            started.0.wf(),
            started.0@ == begun(
                *task,
                settings,
                heeded(settings.cancellation, cancellation.recorded(), task.task_id),
                now,
                drawn,
            ),
            started.0@.delivery == drawn,
            asked(started.0@, now, started.1),
            started.0.announces(started.1, now),
    {
        let mut run = TaskRun {
            task_id: task.task_id,
            deadline: task.deadline,
            settings,
            seq: 2,
            attempt: 1,
            lease: None,
            delivery: drawn,
            stage: Stage::Claiming,
        };
        assert(run@ =~= fresh_run(*task, settings, drawn));
        if settings.lifecycle {
            (run, RunAction::ClaimQueue)
        } else {
            let action = run.attempt_now(cancellation, now, drawn);
            (run, action)
        }
    }

    /// The lease that the run holds, if it holds one.
    pub fn lease(&self) -> (lease: Option<&QueueLeaseContext>)
        ensures
            lease is Some <==> self@.leased,
            lease matches Some(found) ==> self.lease_of() == Some(*found),
    {
        match &self.lease {
            Some(lease) => Some(lease),
            None => None,
        }
    }

    /// Whether an input answers what the run waits for.
    pub fn accepts(&self, input: &RunInput) -> (accepted: bool)
        ensures
            accepted == answers(self@.stage, *input),
    {
        match (&self.stage, input) {
            (Stage::Claiming, RunInput::Claimed(_)) => true,
            (Stage::Writing { recorded, .. }, RunInput::Emitted(_)) => *recorded,
            (Stage::Writing { recorded, .. }, RunInput::Recorded(_)) => !*recorded,
            (Stage::Marking, RunInput::SendMarked(_)) => true,
            (Stage::Renewing, RunInput::Renewed(_)) => true,
            (Stage::Delivering, RunInput::Delivered(_)) => true,
            (Stage::ReportingFailure { .. }, RunInput::FailureReported(_)) => true,
            (Stage::Executing, RunInput::Executed(_)) => true,
            (Stage::BackingOff, RunInput::Waited(_)) => true,
            (Stage::Releasing { .. }, RunInput::Released(_)) => true,
            (Stage::Finalizing { .. }, RunInput::Finalized(_)) => true,
            _ => false,
        }
    }

    fn on_delivered(
        &mut self,
        raced: Raced<Result<(), DispatchError>>,
        cancellation: &Cancellation,
        now: Timestamp,
        drawn: DeliveryId,
    ) -> (action: RunAction)
        requires
            old(self)@.wf(),
            old(self)@.seq <= 2 * old(self)@.attempt + 1,
        ensures
            final(self).wf(),
            final(self)@ == old(self)@.delivered(
                raced,
                heeded(
                    old(self)@.settings.cancellation,
                    cancellation.recorded(),
                    old(self)@.task_id,
                ),
                now,
                drawn,
            ),
            final(self).lease_of() == old(self).lease_of(),
            asked(final(self)@, now, action),
            final(self).announces(action, now),
    {
        match raced {
            Raced::Done(Ok(())) => match at_checkpoint(
                self.settings.cancellation,
                cancellation,
                self.task_id,
                self.deadline,
                now,
            ) {
                Some(payload) => self.end_or_release(payload, now),
                None => self.write(
                    Purpose::Start,
                    TaskEventPayload::Running { started_at: now },
                    now,
                ),
            },
            Raced::Done(Err(error)) => {
                if self.settings.prepared {
                    self.report_failure(&error, now)
                } else {
                    self.refuse(&error, cancellation, now, drawn)
                }
            },
            Raced::Cancelled(reason) => self.end(TaskEventPayload::Cancelled { reason }, now),
            Raced::TimedOut(deadline) => self.end(
                TaskEventPayload::TimedOut { deadline },
                now,
            ),
        }
    }

    fn on_executed(
        &mut self,
        raced: Raced<Result<DispatchOutcome, DispatchError>>,
        cancellation: &Cancellation,
        now: Timestamp,
        drawn: DeliveryId,
    ) -> (action: RunAction)
        requires
            old(self)@.wf(),
        ensures
            final(self).wf(),
            final(self)@ == old(self)@.executed(
                raced,
                heeded(
                    old(self)@.settings.cancellation,
                    cancellation.recorded(),
                    old(self)@.task_id,
                ),
                now,
                drawn,
            ),
            final(self).lease_of() == old(self).lease_of(),
            asked(final(self)@, now, action),
            final(self).announces(action, now),
    {
        match raced {
            Raced::Done(Ok(DispatchOutcome::Completed { output })) => {
                let payload = TaskEventPayload::Completed { output };
                if self.settings.prepared {
                    self.finalize(payload, now)
                } else {
                    self.end(payload, now)
                }
            },
            Raced::Done(Ok(DispatchOutcome::Failed { error })) => {
                let payload = TaskEventPayload::Failed { error };
                if self.settings.prepared {
                    self.finalize(payload, now)
                } else {
                    self.end(payload, now)
                }
            },
            Raced::Done(Err(error)) => {
                if self.settings.prepared {
                    self.fail(&error, now)
                } else {
                    self.refuse(&error, cancellation, now, drawn)
                }
            },
            Raced::Cancelled(reason) => self.end_or_release(
                TaskEventPayload::Cancelled { reason },
                now,
            ),
            Raced::TimedOut(deadline) => self.end_or_release(
                TaskEventPayload::TimedOut { deadline },
                now,
            ),
        }
    }

    fn on_waited(
        &mut self,
        raced: Raced<()>,
        cancellation: &Cancellation,
        now: Timestamp,
        drawn: DeliveryId,
    ) -> (action: RunAction)
        requires
            old(self)@.wf(),
            old(self)@.settings.retry.allows_after(old(self)@.attempt as int),
        ensures
            final(self).wf(),
            final(self)@ == old(self)@.waited(
                raced,
                heeded(
                    old(self)@.settings.cancellation,
                    cancellation.recorded(),
                    old(self)@.task_id,
                ),
                now,
                drawn,
            ),
            final(self).lease_of() == old(self).lease_of(),
            asked(final(self)@, now, action),
            final(self).announces(action, now),
    {
        match raced {
            Raced::Done(()) => {
                self.attempt = self.attempt + 1;
                assert(self@ =~= (RunView {
                    attempt: old(self)@.attempt + 1,
                    ..old(self)@
                }));
                self.attempt_now(cancellation, now, drawn)
            },
            Raced::Cancelled(reason) => self.end(TaskEventPayload::Cancelled { reason }, now),
            Raced::TimedOut(deadline) => self.end(
                TaskEventPayload::TimedOut { deadline },
                now,
            ),
        }
    }

    fn on_written(&mut self, purpose: Purpose) -> (action: RunAction)
        requires
            old(self)@.wf(),
            purpose == Purpose::Dispatch ==> old(self)@.seq <= 2 * old(self)@.attempt,
            purpose == Purpose::Start ==> old(self)@.seq <= 2 * old(self)@.attempt + 1,
        ensures
            final(self).wf(),
            final(self)@ == old(self)@.written(purpose),
            final(self).lease_of() == old(self).lease_of(),
            forall|now: Timestamp| asked(final(self)@, now, action),
            told_event(action) is None,
    {
        match purpose {
            Purpose::Dispatch => {
                self.seq = self.seq + 1;
                if self.lease.is_some() {
                    self.stage = Stage::Marking;
                    RunAction::MarkSendStarted
                } else {
                    self.stage = Stage::Delivering;
                    RunAction::Deliver { delivery_id: self.delivery, attempt: self.attempt }
                }
            },
            Purpose::Start => {
                self.seq = self.seq + 1;
                self.stage = Stage::Executing;
                RunAction::Execute { delivery_id: self.delivery, attempt: self.attempt }
            },
            Purpose::Terminal => {
                self.stop(Ok(()))
            },
            Purpose::Finalized => {
                self.stop(Ok(()))
            },
        }
    }

    /// Takes what came of the last action, and says what to do next. Once the task is
    /// terminal, its cancellation record is retired. Every attempt gets an identity
    /// that is drawn for it.
    pub fn step(&mut self, cancellation: &mut Cancellation, now: Timestamp, input: RunInput) -> (
        action: RunAction)
        requires
            old(self).wf(),
            old(cancellation).wf(),
            answers(old(self)@.stage, input),
        ensures
            ({
                let cancel = heeded(
                    old(self)@.settings.cancellation,
                    old(cancellation).recorded(),
                    old(self)@.task_id,
                );
                &&& final(self)@ == old(self)@.next(cancel, now, final(self)@.delivery, input)
                &&& if old(self)@.starts_attempt(cancel, now, input) {
                    is_version_7(final(self)@.delivery.bits())
                } else {
                    final(self)@.delivery == old(self)@.delivery
                }
            }),
            stepped(*old(self), *final(self), now, input, action),
            final(cancellation).wf(),
            final(cancellation).stamp() == old(cancellation).stamp(),
            final(cancellation).recorded() == old(self)@.left_recorded(
                old(cancellation).recorded(),
                input,
            ),
    {
        self.step_drawn(cancellation, now, input, DeliveryId::generate())
    }

    /// Takes what came of the last action, where `drawn` was drawn for an attempt that
    /// may start now.
    pub fn step_drawn(
        &mut self,
        cancellation: &mut Cancellation,
        now: Timestamp,
        input: RunInput,
        drawn: DeliveryId,
    ) -> (action: RunAction)
        requires
            old(self).wf(),
            old(cancellation).wf(),
            answers(old(self)@.stage, input),
        ensures
            ({
                let cancel = heeded(
                    old(self)@.settings.cancellation,
                    old(cancellation).recorded(),
                    old(self)@.task_id,
                );
                &&& final(self)@ == old(self)@.next(cancel, now, drawn, input)
                &&& final(self)@.delivery == if old(self)@.starts_attempt(cancel, now, input) {
                    drawn
                } else {
                    old(self)@.delivery
                }
            }),
            stepped(*old(self), *final(self), now, input, action),
            final(cancellation).wf(),
            final(cancellation).stamp() == old(cancellation).stamp(),
            final(cancellation).recorded() == old(self)@.left_recorded(
                old(cancellation).recorded(),
                input,
            ),
    {
        proof {
            lemma_an_attempt_gets_what_was_drawn(
                self@,
                heeded(
                    self@.settings.cancellation,
                    cancellation.recorded(),
                    self@.task_id,
                ),
                now,
                drawn,
                input,
            );
        }
        self.advance(cancellation, now, input, drawn)
    }

    #[verifier::rlimit(40)]
    fn advance(
        &mut self,
        cancellation: &mut Cancellation,
        now: Timestamp,
        input: RunInput,
        drawn: DeliveryId,
    ) -> (action: RunAction)
        requires
            old(self).wf(),
            old(cancellation).wf(),
            answers(old(self)@.stage, input),
        ensures
            final(self)@ == old(self)@.next(
                heeded(
                    old(self)@.settings.cancellation,
                    old(cancellation).recorded(),
                    old(self)@.task_id,
                ),
                now,
                drawn,
                input,
            ),
            stepped(*old(self), *final(self), now, input, action),
            final(cancellation).wf(),
            final(cancellation).stamp() == old(cancellation).stamp(),
            final(cancellation).recorded() == old(self)@.left_recorded(
                old(cancellation).recorded(),
                input,
            ),
    {
        let ghost before = *self;
        let ghost given = input;
        let mut stage = Stage::Done { result: Ok(()) };
        std::mem::swap(&mut stage, &mut self.stage);
        let mut retire = false;
        let action = match (stage, input) {
            (Stage::Claiming, RunInput::Claimed(Err(error))) => self.fail(&error, now),
            (Stage::Claiming, RunInput::Claimed(Ok(lease))) => {
                self.lease = lease;
                assert(self@ =~= (RunView {
                    leased: lease is Some,
                    stage: StageView::Done { result: Ok(()) },
                    ..before@
                }));
                self.attempt_now(cancellation, now, drawn)
            },
            (Stage::Writing { purpose, event, .. }, RunInput::Recorded(recorded)) => {
                let confirmed = match recorded {
                    Ok(LifecycleResult::Committed) => true,
                    Ok(LifecycleResult::Replay) => true,
                    _ => false,
                };
                if confirmed {
                    let copy = event.duplicate();
                    self.stage = Stage::Writing { recorded: true, purpose, event };
                    RunAction::Emit(copy)
                } else {
                    retire = purpose == Purpose::Terminal;
                    self.unconfirmed()
                }
            },
            (Stage::Writing { purpose, .. }, RunInput::Emitted(Err(error))) => {
                retire = purpose == Purpose::Terminal;
                let stopped = match error {
                    BusError::EventSinkClosed => WorkerError::EventStreamClosed {
                        task_id: self.task_id,
                        seq: self.seq,
                    },
                    BusError::EventBufferFull => WorkerError::EventBackpressure {
                        task_id: self.task_id,
                        seq: self.seq,
                    },
                    other => WorkerError::EventWrite {
                        task_id: self.task_id,
                        seq: self.seq,
                        error: other,
                    },
                };
                self.stop(Err(stopped))
            },
            (Stage::Writing { purpose, .. }, RunInput::Emitted(Ok(()))) => {
                retire = purpose == Purpose::Terminal || purpose == Purpose::Finalized;
                self.on_written(purpose)
            },
            (Stage::Marking, RunInput::SendMarked(Err(error))) => self.fail(&error, now),
            (Stage::Marking, RunInput::SendMarked(Ok(()))) => {
                self.stage = Stage::Renewing;
                RunAction::RenewLease
            },
            (Stage::Renewing, RunInput::Renewed(Err(error))) => self.fail(&error, now),
            (Stage::Renewing, RunInput::Renewed(Ok(()))) => {
                self.stage = Stage::Delivering;
                RunAction::Deliver { delivery_id: self.delivery, attempt: self.attempt }
            },
            (Stage::Delivering, RunInput::Delivered(raced)) => self.on_delivered(
                raced,
                cancellation,
                now,
                drawn,
            ),
            (Stage::ReportingFailure { .. }, RunInput::FailureReported(Ok(()))) => {
                retire = true;
                self.stop(Ok(()))
            },
            (Stage::ReportingFailure { .. }, RunInput::FailureReported(Err(_))) => {
                self.unconfirmed()
            },
            (Stage::Executing, RunInput::Executed(raced)) => self.on_executed(
                raced,
                cancellation,
                now,
                drawn,
            ),
            (Stage::BackingOff, RunInput::Waited(raced)) => self.on_waited(
                raced,
                cancellation,
                now,
                drawn,
            ),
            (Stage::Releasing { payload }, RunInput::Released(released)) => {
                if released {
                    self.finalize(payload, now)
                } else {
                    self.unconfirmed()
                }
            },
            (Stage::Finalizing { event }, RunInput::Finalized(reply)) => {
                let confirmed = match reply {
                    Some(FinalizeResult::Committed) => true,
                    Some(FinalizeResult::AlreadyTerminal) => true,
                    _ => false,
                };
                if confirmed {
                    let copy = event.duplicate();
                    let recorded = !self.settings.lifecycle;
                    self.stage = Stage::Writing { recorded, purpose: Purpose::Finalized, event };
                    if recorded {
                        RunAction::Emit(copy)
                    } else {
                        RunAction::Record(copy)
                    }
                } else {
                    self.unconfirmed()
                }
            },
            _ => {
                assert(false);
                RunAction::Return(Ok(()))
            },
        };
        if retire && self.settings.cancellation {
            cancellation.retire(self.task_id);
        }
        proof {
            lemma_next_keeps_range(
                before@,
                heeded(
                    before@.settings.cancellation,
                    old(cancellation).recorded(),
                    before@.task_id,
                ),
                now,
                drawn,
                given,
            );
        }
        action
    }
}

/// A run that heeds cancellations heeds every reason that is recorded for its task, its own
/// or that of all tasks, and a run that does not heeds none.
pub proof fn law_a_run_heeds_what_is_recorded(recorded: Recorded, task_id: TaskId)
    ensures
        heeded(true, recorded, task_id) == (match recorded.targeted(task_id) {
            Some(own) => Some(own),
            None => recorded.global,
        }),
        heeded(false, recorded, task_id) is None,
{
}

/// What is told of a run is told of its own task, with its next number and with the status
/// of what is told.
pub proof fn law_events_are_of_their_own_task(run: RunView, now: Timestamp, action: RunAction)
    requires
        asked(run, now, action),
    ensures
        match action {
            RunAction::Record(event) => event.task_id == run.task_id && event.seq == run.seq
                && event.status == event.payload.status_of(),
            RunAction::Emit(event) => event.task_id == run.task_id && event.seq == run.seq
                && event.status == event.payload.status_of(),
            RunAction::ReportFailure(event) => event.task_id == run.task_id && event.seq == run.seq
                && event.status == event.payload.status_of(),
            RunAction::Finalize(event) => event.task_id == run.task_id && event.seq == run.seq
                && event.status == event.payload.status_of(),
            _ => true,
        },
{
}

/// What keeps a task from its dispatcher is told as it is; and where nothing does, it has a
/// target that is declared, on and reachable, and a dispatcher for its transport.
pub proof fn law_the_gate_tells_why(
    task: AgentTask,
    endpoints: Seq<EndpointView>,
    reachable: Set<TransportType>,
    config: WorkerConfig,
    now: Timestamp,
)
    requires
        !(task.deadline matches Some(due) && due.total() <= now.total()),
        task.depth <= config.limits.max_depth,
        task.hops <= config.limits.max_hops,
    ensures
        match judged(endpoints, task.to_agent) {
            Err(error) => gate_verdict(task, endpoints, reachable, config, None, now) == Some(
                PayloadView::Failed { error: error.rendered() },
            ),
            Ok(target) => if reachable.contains(target.transport) {
                gate_verdict(task, endpoints, reachable, config, None, now) is None
            } else {
                gate_verdict(task, endpoints, reachable, config, None, now) matches Some(
                    PayloadView::Failed { .. },
                )
            },
        },
{
}

/// What a step of a run asks for is what the run is waiting for; an event that it makes is
/// stamped with the moment of the step, and one that was recorded or finalized is the very
/// event that was under way; and the lease is the one that came with the claim.
pub proof fn law_a_step_asks_for_what_the_run_waits_for(
    before: TaskRun,
    after: TaskRun,
    now: Timestamp,
    input: RunInput,
    action: RunAction,
)
    requires
        stepped(before, after, now, input, action),
    ensures
        asked(after@, now, action),
        ({
            let event = match action {
                RunAction::Record(event) => Some(event),
                RunAction::Emit(event) => Some(event),
                RunAction::ReportFailure(event) => Some(event),
                RunAction::Finalize(event) => Some(event),
                _ => None,
            };
            &&& event matches Some(made) ==> after.under_way() == Some(made)
            &&& event is Some && (input is Recorded || input is Finalized) ==> before.under_way()
                == event
            &&& event matches Some(made) ==> (!(input is Recorded || input is Finalized)
                ==> made.timestamp == now)
        }),
        match input {
            RunInput::Claimed(Ok(lease)) => after.lease_of() == lease,
            _ => after.lease_of() == before.lease_of(),
        },
{
}

} // verus!
