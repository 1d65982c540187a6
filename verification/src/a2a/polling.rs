//! Polling a peer's task until it is over.

use vstd::prelude::*;
use vstd::string::*;

use crate::a2a::dispatcher::artifact_texts;
use crate::a2a::dispatcher::fault_of;
use crate::a2a::dispatcher::render_artifacts;
use crate::a2a::dispatcher::FaultView;
use crate::a2a::error::A2aError;
use crate::a2a::error::A2aErrorView;
use crate::a2a::store::ExchangeRecord;
use crate::a2a::wire::Artifact;
use crate::a2a::wire::TaskSnapshot;
use crate::a2a::wire::TaskState;
use crate::acp::result::optional;
use crate::bus::worker::DispatchError;
use crate::bus::worker::DispatchOutcome;
use crate::text::joined;

verus! {

/// How often a peer is polled where nothing else is configured, in milliseconds.
pub const POLL_INTERVAL_MILLIS: u64 = 250;

/// How many polls a task gets where nothing else is configured.
pub const MAX_POLLS: u32 = 120;

/// How a task of a peer ended, as data.
pub ghost enum PollEnd {
    Completed(Seq<char>),
    Failed(Seq<char>),
    Fault(FaultView),
}

/// The end of a task as data.
pub open spec fn end_of(end: Result<DispatchOutcome, DispatchError>) -> PollEnd {
    match end {
        Ok(DispatchOutcome::Completed { output }) => PollEnd::Completed(output@),
        Ok(DispatchOutcome::Failed { error }) => PollEnd::Failed(error@),
        Err(error) => PollEnd::Fault(fault_of(error)),
    }
}

/// Where a task of a peer is.
pub ghost enum PollStageView {
    AwaitFound,
    AwaitPolled { exchange_id: Seq<char>, remote_id: Seq<char>, left: nat },
    AwaitSlept { exchange_id: Seq<char>, remote_id: Seq<char>, left: nat },
    AwaitStored { output: Seq<char> },
    Done,
}

/// What came of an action, as data.
pub ghost enum PollInputView {
    Found(Result<Option<(Seq<char>, Option<Seq<char>>)>, A2aErrorView>),
    Polled(Result<(TaskState, Seq<Artifact>), A2aErrorView>),
    Slept,
    Stored(Result<(), A2aErrorView>),
}

/// What to do next, as data.
pub ghost enum PollActionView {
    Find,
    Poll(Seq<char>),
    Sleep,
    Store(Seq<char>, Seq<Artifact>),
    Ended(PollEnd),
}

/// The end of a task whose state cannot be learned or means no result.
pub open spec fn poll_fault(fault: FaultView) -> (PollStageView, PollActionView) {
    (PollStageView::Done, PollActionView::Ended(PollEnd::Fault(fault)))
}

/// The next poll, where one is left.
pub open spec fn next_poll(exchange_id: Seq<char>, remote_id: Seq<char>, left: nat) -> (
    PollStageView,
    PollActionView,
) {
    if left == 0 {
        poll_fault(FaultView::RecoveryNeeded)
    } else {
        (
            PollStageView::AwaitPolled { exchange_id, remote_id, left: (left - 1) as nat },
            PollActionView::Poll(remote_id),
        )
    }
}

/// Whether `input` answers what is waited for.
pub open spec fn poll_expects(stage: PollStageView, input: PollInputView) -> bool {
    match stage {
        PollStageView::AwaitFound => input is Found,
        PollStageView::AwaitPolled { exchange_id: _, remote_id: _, left: _ } => input is Polled,
        PollStageView::AwaitSlept { exchange_id: _, remote_id: _, left: _ } => input is Slept,
        PollStageView::AwaitStored { output: _ } => input is Stored,
        PollStageView::Done => false,
    }
}

/// What a poll's answer means.
pub open spec fn polled_next(
    exchange_id: Seq<char>,
    remote_id: Seq<char>,
    left: nat,
    status: TaskState,
    artifacts: Seq<Artifact>,
) -> (PollStageView, PollActionView) {
    match status {
        TaskState::Submitted | TaskState::Working => (
            PollStageView::AwaitSlept { exchange_id, remote_id, left },
            PollActionView::Sleep,
        ),
        TaskState::Completed => (
            PollStageView::AwaitStored { output: joined(artifact_texts(artifacts), "\n"@) },
            PollActionView::Store(exchange_id, artifacts),
        ),
        TaskState::Failed => (
            PollStageView::Done,
            PollActionView::Ended(PollEnd::Failed("remote_failed"@)),
        ),
        TaskState::Canceled => (
            PollStageView::Done,
            PollActionView::Ended(PollEnd::Failed("remote_cancelled"@)),
        ),
        TaskState::Rejected => poll_fault(FaultView::NotAccepted("remote rejected task"@)),
        TaskState::InputRequired | TaskState::AuthRequired => poll_fault(
            FaultView::ExecutionFailed("unsupported remote task state"@),
        ),
    }
}

/// How polling goes on, with `max_polls` polls in all.
pub open spec fn poll_next(max_polls: nat, stage: PollStageView, input: PollInputView) -> (
    PollStageView,
    PollActionView,
) {
    match (stage, input) {
        (PollStageView::AwaitFound, PollInputView::Found(Err(error))) => poll_fault(
            FaultView::ExecutionFailed(error.rendered()),
        ),
        (PollStageView::AwaitFound, PollInputView::Found(Ok(Some((exchange_id, Some(remote_id)))))) =>
            next_poll(exchange_id, remote_id, max_polls),
        (PollStageView::AwaitFound, PollInputView::Found(Ok(_))) => poll_fault(
            FaultView::ExecutionFailed("remote task binding missing"@),
        ),
        (
            PollStageView::AwaitPolled { exchange_id: _, remote_id: _, left: _ },
            PollInputView::Polled(Err(error)),
        ) => poll_fault(FaultView::ExecutionFailed(error.rendered())),
        (
            PollStageView::AwaitPolled { exchange_id, remote_id, left },
            PollInputView::Polled(Ok((status, artifacts))),
        ) => polled_next(exchange_id, remote_id, left, status, artifacts),
        (PollStageView::AwaitSlept { exchange_id, remote_id, left }, PollInputView::Slept) =>
            next_poll(exchange_id, remote_id, left),
        (PollStageView::AwaitStored { output: _ }, PollInputView::Stored(Err(error))) => poll_fault(
            FaultView::ExecutionFailed(error.rendered()),
        ),
        (PollStageView::AwaitStored { output }, PollInputView::Stored(Ok(_))) => (
            PollStageView::Done,
            PollActionView::Ended(PollEnd::Completed(output)),
        ),
        _ => poll_fault(FaultView::RecoveryNeeded),
    }
}

/// What came of an action.
pub enum PollInput {
    /// The exchange of the task, where there is one.
    Found(Result<Option<ExchangeRecord>, A2aError>),
    /// What the peer says of the task.
    Polled(Result<TaskSnapshot, A2aError>),
    /// The interval passed.
    Slept,
    /// Whether the artifacts were stored.
    Stored(Result<(), A2aError>),
}

impl View for PollInput {
    type V = PollInputView;

    open spec fn view(&self) -> PollInputView {
        match self {
            PollInput::Found(Ok(Some(record))) => PollInputView::Found(
                Ok(Some((record.exchange_id@, optional(record.external_task_id)))),
            ),
            PollInput::Found(Ok(None)) => PollInputView::Found(Ok(None)),
            PollInput::Found(Err(error)) => PollInputView::Found(Err(error@)),
            PollInput::Polled(Ok(snapshot)) => PollInputView::Polled(
                Ok((snapshot.status, snapshot.artifacts@)),
            ),
            PollInput::Polled(Err(error)) => PollInputView::Polled(Err(error@)),
            PollInput::Slept => PollInputView::Slept,
            PollInput::Stored(Ok(_)) => PollInputView::Stored(Ok(())),
            PollInput::Stored(Err(error)) => PollInputView::Stored(Err(error@)),
        }
    }
}

/// What to do next for a task of a peer.
pub enum PollAction {
    /// Find the exchange of the task.
    Find,
    /// Ask the peer for the task.
    Poll { remote_id: String },
    /// Wait for the interval.
    Sleep,
    /// Store the artifacts.
    Store { exchange_id: String, artifacts: Vec<Artifact> },
    /// The task is over.
    Ended(Result<DispatchOutcome, DispatchError>),
}

impl View for PollAction {
    type V = PollActionView;

    open spec fn view(&self) -> PollActionView {
        match self {
            PollAction::Find => PollActionView::Find,
            PollAction::Poll { remote_id } => PollActionView::Poll(remote_id@),
            PollAction::Sleep => PollActionView::Sleep,
            PollAction::Store { exchange_id, artifacts } => PollActionView::Store(
                exchange_id@,
                artifacts@,
            ),
            PollAction::Ended(end) => PollActionView::Ended(end_of(*end)),
        }
    }
}

/// Where a task of a peer is.
enum PollStage {
    AwaitFound,
    AwaitPolled { exchange_id: String, remote_id: String, left: u32 },
    AwaitSlept { exchange_id: String, remote_id: String, left: u32 },
    AwaitStored { output: String },
    Done,
}

/// A task of a peer on its way.
pub struct Polling {
    max_polls: u32,
    stage: PollStage,
}

/// A fault with a reason.
fn failed(reason: &str) -> (action: PollAction)
    ensures
        action@ == poll_fault(FaultView::ExecutionFailed(reason@)).1,
{
    PollAction::Ended(Err(DispatchError::ExecutionFailed { reason: reason.to_owned() }))
}

impl Polling {
    /// How many polls the task gets.
    pub closed spec fn max_polls(&self) -> nat {
        self.max_polls as nat
    }

    /// Where the task is.
    pub closed spec fn stage(&self) -> PollStageView {
        match self.stage {
            PollStage::AwaitFound => PollStageView::AwaitFound,
            PollStage::AwaitPolled { exchange_id, remote_id, left } => PollStageView::AwaitPolled {
                exchange_id: exchange_id@,
                remote_id: remote_id@,
                left: left as nat,
            },
            PollStage::AwaitSlept { exchange_id, remote_id, left } => PollStageView::AwaitSlept {
                exchange_id: exchange_id@,
                remote_id: remote_id@,
                left: left as nat,
            },
            PollStage::AwaitStored { output } => PollStageView::AwaitStored { output: output@ },
            PollStage::Done => PollStageView::Done,
        }
    }

    /// Begin polling: find the exchange of the task first.
    pub fn begin(max_polls: u32) -> (run: (Polling, PollAction))
        ensures
            run.0.max_polls() == max_polls,
            run.0.stage() == PollStageView::AwaitFound,
            run.1@ == PollActionView::Find,
    {
        (Polling { max_polls, stage: PollStage::AwaitFound }, PollAction::Find)
    }

    /// Whether `input` answers what is waited for.
    pub fn expects(&self, input: &PollInput) -> (yes: bool)
        ensures
            yes == poll_expects(self.stage(), input@),
    {
        match (&self.stage, input) {
            (PollStage::AwaitFound, PollInput::Found(_)) => true,
            (
                PollStage::AwaitPolled { exchange_id: _, remote_id: _, left: _ },
                PollInput::Polled(_),
            ) => true,
            (PollStage::AwaitSlept { exchange_id: _, remote_id: _, left: _ }, PollInput::Slept) => {
                true
            },
            (PollStage::AwaitStored { output: _ }, PollInput::Stored(_)) => true,
            _ => false,
        }
    }

    /// Poll once more, where a poll is left.
    fn poll(&mut self, exchange_id: String, remote_id: String, left: u32) -> (action: PollAction)
        requires
            old(self).stage() is Done,
        ensures
            final(self).max_polls() == old(self).max_polls(),
            (final(self).stage(), action@) == next_poll(exchange_id@, remote_id@, left as nat),
    {
        if left == 0 {
            PollAction::Ended(Err(DispatchError::RecoveryNeeded))
        } else {
            let asked = remote_id.clone();
            self.stage = PollStage::AwaitPolled { exchange_id, remote_id, left: left - 1 };
            PollAction::Poll { remote_id: asked }
        }
    }

    /// The peer told the state of the task.
    fn polled(&mut self, exchange_id: String, remote_id: String, left: u32, snapshot: TaskSnapshot) -> (
    action: PollAction)
        requires
            old(self).stage() is Done,
        ensures
            final(self).max_polls() == old(self).max_polls(),
            (final(self).stage(), action@) == polled_next(
                exchange_id@,
                remote_id@,
                left as nat,
                snapshot.status,
                snapshot.artifacts@,
            ),
    {
        match snapshot.status {
            TaskState::Submitted | TaskState::Working => {
                self.stage = PollStage::AwaitSlept { exchange_id, remote_id, left };
                PollAction::Sleep
            },
            TaskState::Completed => {
                let output = render_artifacts(&snapshot.artifacts);
                self.stage = PollStage::AwaitStored { output };
                PollAction::Store { exchange_id, artifacts: snapshot.artifacts }
            },
            TaskState::Failed => PollAction::Ended(
                Ok(DispatchOutcome::Failed { error: "remote_failed".to_owned() }),
            ),
            TaskState::Canceled => PollAction::Ended(
                Ok(DispatchOutcome::Failed { error: "remote_cancelled".to_owned() }),
            ),
            TaskState::Rejected => PollAction::Ended(
                Err(DispatchError::NotAccepted { reason: "remote rejected task".to_owned() }),
            ),
            TaskState::InputRequired | TaskState::AuthRequired => {
                failed("unsupported remote task state")
            },
        }
    }

    /// Go on with what came of the last action.
    pub fn step(&mut self, input: PollInput) -> (action: PollAction)
        requires
            poll_expects(old(self).stage(), input@),
        ensures
            final(self).max_polls() == old(self).max_polls(),
            (final(self).stage(), action@) == poll_next(
                old(self).max_polls(),
                old(self).stage(),
                input@,
            ),
    {
        let mut stage = PollStage::Done;
        std::mem::swap(&mut stage, &mut self.stage);
        match (stage, input) {
            (PollStage::AwaitFound, PollInput::Found(Err(error))) => {
                let reason = error.to_string();
                failed(reason.as_str())
            },
            (PollStage::AwaitFound, PollInput::Found(Ok(None))) => {
                failed("remote task binding missing")
            },
            (PollStage::AwaitFound, PollInput::Found(Ok(Some(record)))) => {
                match record.external_task_id {
                    None => failed("remote task binding missing"),
                    Some(remote_id) => {
                        let left: u32 = self.max_polls;
                        self.poll(record.exchange_id, remote_id, left)
                    },
                }
            },
            (
                PollStage::AwaitPolled { exchange_id: _, remote_id: _, left: _ },
                PollInput::Polled(Err(error)),
            ) => {
                let reason = error.to_string();
                failed(reason.as_str())
            },
            (
                PollStage::AwaitPolled { exchange_id, remote_id, left },
                PollInput::Polled(Ok(snapshot)),
            ) => self.polled(exchange_id, remote_id, left, snapshot),
            (PollStage::AwaitSlept { exchange_id, remote_id, left }, PollInput::Slept) => {
                self.poll(exchange_id, remote_id, left)
            },
            (PollStage::AwaitStored { output: _ }, PollInput::Stored(Err(error))) => {
                let reason = error.to_string();
                failed(reason.as_str())
            },
            (PollStage::AwaitStored { output }, PollInput::Stored(Ok(_))) => {
                PollAction::Ended(Ok(DispatchOutcome::Completed { output }))
            },
            _ => {
                assert(false);
                PollAction::Ended(Err(DispatchError::RecoveryNeeded))
            },
        }
    }
}

/// Where polling is after `inputs`, and what it does next.
pub open spec fn polled_after(max_polls: nat, inputs: Seq<PollInputView>) -> (
    PollStageView,
    PollActionView,
)
    decreases inputs.len(),
{
    if inputs.len() == 0 {
        (PollStageView::AwaitFound, PollActionView::Find)
    } else {
        poll_next(max_polls, polled_after(max_polls, inputs.drop_last()).0, inputs.last())
    }
}

/// Whether every input answered what was waited for.
pub open spec fn answers_polling(max_polls: nat, inputs: Seq<PollInputView>) -> bool
    decreases inputs.len(),
{
    inputs.len() == 0 || {
        &&& answers_polling(max_polls, inputs.drop_last())
        &&& poll_expects(polled_after(max_polls, inputs.drop_last()).0, inputs.last())
    }
}

/// How often the peer was asked.
pub open spec fn polls_made(max_polls: nat, inputs: Seq<PollInputView>) -> nat
    decreases inputs.len(),
{
    let own: nat = if polled_after(max_polls, inputs).1 is Poll {
        1
    } else {
        0
    };
    if inputs.len() == 0 {
        own
    } else {
        own + polls_made(max_polls, inputs.drop_last())
    }
}

/// How many polls a stage leaves.
pub open spec fn polls_left(max_polls: nat, stage: PollStageView) -> nat {
    match stage {
        PollStageView::AwaitFound => max_polls,
        PollStageView::AwaitPolled { exchange_id: _, remote_id: _, left } => left,
        PollStageView::AwaitSlept { exchange_id: _, remote_id: _, left } => left,
        _ => 0,
    }
}

/// A peer is never asked more often than configured, however long its task runs.
pub proof fn law_polls_are_bounded(max_polls: nat, inputs: Seq<PollInputView>)
    requires
        answers_polling(max_polls, inputs),
    ensures
        polls_made(max_polls, inputs) + polls_left(max_polls, polled_after(max_polls, inputs).0)
            <= max_polls,
    decreases inputs.len(),
{
    if inputs.len() > 0 {
        law_polls_are_bounded(max_polls, inputs.drop_last());
    }
}

/// What polling holds on to: the exchange and the peer's task that were found.
proof fn lemma_polling_keeps_what_it_found(max_polls: nat, inputs: Seq<PollInputView>)
    requires
        answers_polling(max_polls, inputs),
        inputs.len() > 0,
    ensures
        ({
            let stage = polled_after(max_polls, inputs).0;
            &&& inputs[0] is Found
            &&& !(stage is AwaitFound)
            &&& match stage {
                PollStageView::AwaitPolled { exchange_id, remote_id, left } => inputs[0]
                    == PollInputView::Found(Ok(Some((exchange_id, Some(remote_id))))) && left
                    + polls_made(max_polls, inputs) == max_polls,
                PollStageView::AwaitSlept { exchange_id, remote_id, left } => inputs[0]
                    == PollInputView::Found(Ok(Some((exchange_id, Some(remote_id))))) && left
                    + polls_made(max_polls, inputs) == max_polls,
                PollStageView::AwaitStored { output } => inputs.last() matches
                    PollInputView::Polled(Ok((state, artifacts))) && state is Completed && output
                    == joined(artifact_texts(artifacts), "\n"@),
                _ => true,
            }
        }),
    decreases inputs.len(),
{
    let earlier = inputs.drop_last();
    if inputs.len() == 1 {
        assert(earlier.len() == 0);
        reveal_with_fuel(polled_after, 2);
        reveal_with_fuel(answers_polling, 2);
        reveal_with_fuel(polls_made, 3);
    } else {
        lemma_polling_keeps_what_it_found(max_polls, earlier);
        assert(earlier[0] == inputs[0]);
    }
}

/// The peer is always asked for the task that it knows, and what is stored is stored with
/// the exchange of that task.
pub proof fn law_the_peers_own_task_is_polled(
    max_polls: nat,
    inputs: Seq<PollInputView>,
    exchange_id: Seq<char>,
    remote_id: Seq<char>,
)
    requires
        answers_polling(max_polls, inputs),
        inputs.len() > 0,
        inputs[0] == PollInputView::Found(Ok(Some((exchange_id, Some(remote_id))))),
    ensures
        polled_after(max_polls, inputs).1 matches PollActionView::Poll(asked) ==> asked
            == remote_id,
        polled_after(max_polls, inputs).1 matches PollActionView::Store(place, artifacts) ==> {
            &&& place == exchange_id
            &&& inputs.last() == PollInputView::Polled(Ok((TaskState::Completed, artifacts)))
        },
{
    lemma_polling_keeps_what_it_found(max_polls, inputs);
    let earlier = inputs.drop_last();
    if inputs.len() > 1 {
        lemma_polling_keeps_what_it_found(max_polls, earlier);
        assert(earlier[0] == inputs[0]);
    } else {
        assert(earlier.len() == 0);
        reveal_with_fuel(polled_after, 2);
    }
}

/// How polling goes, input by input: a task that is found is polled; one that is not over
/// is polled again after a while, as long as a poll is left; one that is over is reported
/// as the peer says it ended, and a completed one only once its artifacts are stored.
pub proof fn law_polling_goes_step_by_step(max_polls: nat, inputs: Seq<PollInputView>)
    requires
        answers_polling(max_polls, inputs),
        inputs.len() > 0,
    ensures
        ({
            let action = polled_after(max_polls, inputs).1;
            let asked = polls_made(max_polls, inputs.drop_last());
            let recovery = PollActionView::Ended(PollEnd::Fault(FaultView::RecoveryNeeded));
            match inputs.last() {
                PollInputView::Found(Err(error)) => action == PollActionView::Ended(
                    PollEnd::Fault(FaultView::ExecutionFailed(error.rendered())),
                ),
                PollInputView::Found(Ok(None)) => action == PollActionView::Ended(
                    PollEnd::Fault(FaultView::ExecutionFailed("remote task binding missing"@)),
                ),
                PollInputView::Found(Ok(Some((_, None)))) => action == PollActionView::Ended(
                    PollEnd::Fault(FaultView::ExecutionFailed("remote task binding missing"@)),
                ),
                PollInputView::Found(Ok(Some((_, Some(remote))))) => action == (if max_polls == 0 {
                    recovery
                } else {
                    PollActionView::Poll(remote)
                }),
                PollInputView::Polled(Err(error)) => action == PollActionView::Ended(
                    PollEnd::Fault(FaultView::ExecutionFailed(error.rendered())),
                ),
                PollInputView::Polled(Ok((TaskState::Submitted, _))) => action
                    == PollActionView::Sleep,
                PollInputView::Polled(Ok((TaskState::Working, _))) => action
                    == PollActionView::Sleep,
                PollInputView::Polled(Ok((TaskState::Completed, artifacts))) => action matches
                    PollActionView::Store(_, kept) && kept == artifacts,
                PollInputView::Polled(Ok((TaskState::Failed, _))) => action
                    == PollActionView::Ended(PollEnd::Failed("remote_failed"@)),
                PollInputView::Polled(Ok((TaskState::Canceled, _))) => action
                    == PollActionView::Ended(PollEnd::Failed("remote_cancelled"@)),
                PollInputView::Polled(Ok((TaskState::Rejected, _))) => action
                    == PollActionView::Ended(
                    PollEnd::Fault(FaultView::NotAccepted("remote rejected task"@)),
                ),
                PollInputView::Polled(Ok((_, _))) => action == PollActionView::Ended(
                    PollEnd::Fault(FaultView::ExecutionFailed("unsupported remote task state"@)),
                ),
                PollInputView::Slept => if asked < max_polls {
                    action is Poll
                } else {
                    action == recovery
                },
                PollInputView::Stored(Err(error)) => action == PollActionView::Ended(
                    PollEnd::Fault(FaultView::ExecutionFailed(error.rendered())),
                ),
                PollInputView::Stored(Ok(_)) => inputs.len() >= 2 && (inputs[inputs.len() - 2]
                    matches PollInputView::Polled(Ok((state, artifacts))) && state is Completed
                    && action == PollActionView::Ended(
                    PollEnd::Completed(joined(artifact_texts(artifacts), "\n"@)),
                )),
            }
        }),
{
    lemma_polling_keeps_what_it_found(max_polls, inputs);
    let earlier = inputs.drop_last();
    if inputs.len() > 1 {
        lemma_polling_keeps_what_it_found(max_polls, earlier);
        assert(earlier[0] == inputs[0]);
        assert(earlier.last() == inputs[inputs.len() - 2]);
    } else {
        assert(earlier.len() == 0);
        reveal_with_fuel(polled_after, 2);
    }
}

/// Polling waits for what answers its last action, and for nothing once it is over.
pub proof fn law_polling_waits_for_what_it_asked(
    max_polls: nat,
    inputs: Seq<PollInputView>,
    next: PollInputView,
)
    requires
        answers_polling(max_polls, inputs),
    ensures
        answers_polling(max_polls, inputs.push(next)) <==> (match polled_after(
            max_polls,
            inputs,
        ).1 {
            PollActionView::Find => next is Found,
            PollActionView::Poll(_) => next is Polled,
            PollActionView::Sleep => next is Slept,
            PollActionView::Store(_, _) => next is Stored,
            PollActionView::Ended(_) => false,
        }),
{
    assert(inputs.push(next).drop_last() =~= inputs);
    if inputs.len() > 0 {
        lemma_polling_keeps_what_it_found(max_polls, inputs);
        if inputs.len() > 1 {
            lemma_polling_keeps_what_it_found(max_polls, inputs.drop_last());
        } else {
            reveal_with_fuel(polled_after, 2);
        }
    }
}

/// What polling is told, and what it asks for, is seen as it is.
pub proof fn law_polling_is_seen_as_it_is(input: PollInput, action: PollAction)
    ensures
        match input {
            PollInput::Found(Ok(Some(record))) => input@ == PollInputView::Found(
                Ok(
                    Some(
                        (
                            record.exchange_id@,
                            match record.external_task_id {
                                Some(remote) => Some(remote@),
                                None => None,
                            },
                        ),
                    ),
                ),
            ),
            PollInput::Found(Ok(None)) => input@ == PollInputView::Found(Ok(None)),
            PollInput::Found(Err(error)) => input@ == PollInputView::Found(Err(error@)),
            PollInput::Polled(Ok(snapshot)) => input@ == PollInputView::Polled(
                Ok((snapshot.status, snapshot.artifacts@)),
            ),
            PollInput::Polled(Err(error)) => input@ == PollInputView::Polled(Err(error@)),
            PollInput::Slept => input@ == PollInputView::Slept,
            PollInput::Stored(Ok(_)) => input@ matches PollInputView::Stored(Ok(_)),
            PollInput::Stored(Err(error)) => input@ == PollInputView::Stored(Err(error@)),
        },
        match action {
            PollAction::Find => action@ == PollActionView::Find,
            PollAction::Poll { remote_id } => action@ == PollActionView::Poll(remote_id@),
            PollAction::Sleep => action@ == PollActionView::Sleep,
            PollAction::Store { exchange_id, artifacts } => action@ == PollActionView::Store(
                exchange_id@,
                artifacts@,
            ),
            PollAction::Ended(Ok(DispatchOutcome::Completed { output })) => action@
                == PollActionView::Ended(PollEnd::Completed(output@)),
            PollAction::Ended(Ok(DispatchOutcome::Failed { error })) => action@
                == PollActionView::Ended(PollEnd::Failed(error@)),
            PollAction::Ended(Err(DispatchError::NotAccepted { reason })) => action@
                == PollActionView::Ended(PollEnd::Fault(FaultView::NotAccepted(reason@))),
            PollAction::Ended(Err(DispatchError::ExecutionFailed { reason })) => action@
                == PollActionView::Ended(PollEnd::Fault(FaultView::ExecutionFailed(reason@))),
            PollAction::Ended(Err(DispatchError::UnsupportedPrepared)) => action@
                == PollActionView::Ended(PollEnd::Fault(FaultView::UnsupportedPrepared)),
            PollAction::Ended(Err(DispatchError::AcceptanceUnknown)) => action@
                == PollActionView::Ended(PollEnd::Fault(FaultView::AcceptanceUnknown)),
            PollAction::Ended(Err(DispatchError::RecoveryNeeded)) => action@
                == PollActionView::Ended(PollEnd::Fault(FaultView::RecoveryNeeded)),
        },
        POLL_INTERVAL_MILLIS == 250,
        MAX_POLLS == 120,
{
}

} // verus!
