//! How the states of a peer's task relate to the bridge's own.

use vstd::prelude::*;
use vstd::string::*;

use crate::a2a::error::A2aError;
use crate::a2a::error::A2aErrorView;
use crate::a2a::wire::TaskState;
use crate::bus::worker::DispatchOutcome;
use crate::models::TaskStatus;

verus! {

/// The bridge's status for a peer's state.
pub open spec fn status_for(state: TaskState) -> Result<TaskStatus, A2aErrorView> {
    match state {
        TaskState::Submitted => Ok(TaskStatus::Queued),
        TaskState::Working => Ok(TaskStatus::Running),
        TaskState::Completed => Ok(TaskStatus::Completed),
        TaskState::Failed => Ok(TaskStatus::Failed),
        TaskState::AuthRequired => Ok(TaskStatus::Failed),
        TaskState::Canceled => Ok(TaskStatus::Cancelled),
        TaskState::Rejected => Err(A2aErrorView::Protocol("rejected is pre-acceptance only"@)),
        TaskState::InputRequired => Err(A2aErrorView::Unsupported),
    }
}

/// The state a peer sees for the bridge's status.
pub open spec fn projected(status: TaskStatus) -> TaskState {
    match status {
        TaskStatus::Queued => TaskState::Submitted,
        TaskStatus::Dispatched => TaskState::Working,
        TaskStatus::Running => TaskState::Working,
        TaskStatus::Completed => TaskState::Completed,
        TaskStatus::Failed => TaskState::Failed,
        TaskStatus::TimedOut => TaskState::Failed,
        TaskStatus::Cancelled => TaskState::Canceled,
    }
}

/// What a peer sees is read back as a status of the same kind: a task that is over
/// is over on both sides, and one that is not is not.
pub proof fn law_a_projected_status_reads_back(status: TaskStatus)
    ensures
        status_for(projected(status)) is Ok,
        status_for(projected(status))->Ok_0.terminal() == status.terminal(),
        status is Completed <==> status_for(projected(status)) == Ok::<TaskStatus, A2aErrorView>(
            TaskStatus::Completed,
        ),
        status is Cancelled <==> status_for(projected(status)) == Ok::<TaskStatus, A2aErrorView>(
            TaskStatus::Cancelled,
        ),
{
}

/// The bridge's status for a peer's state. A rejection belongs before acceptance,
/// and a peer's question cannot be answered.
pub fn internal_status(state: TaskState) -> (status: Result<TaskStatus, A2aError>)
    ensures
        match status {
            Ok(status) => status_for(state) == Ok::<TaskStatus, A2aErrorView>(status),
            Err(error) => status_for(state) == Err::<TaskStatus, A2aErrorView>(error@),
        },
{
    match state {
        TaskState::Submitted => Ok(TaskStatus::Queued),
        TaskState::Working => Ok(TaskStatus::Running),
        TaskState::Completed => Ok(TaskStatus::Completed),
        TaskState::Failed | TaskState::AuthRequired => Ok(TaskStatus::Failed),
        TaskState::Canceled => Ok(TaskStatus::Cancelled),
        TaskState::Rejected => Err(A2aError::Protocol("rejected is pre-acceptance only")),
        TaskState::InputRequired => Err(A2aError::Unsupported),
    }
}

/// The outcome that a peer's state is: none while the task runs.
pub fn outbound_outcome(state: TaskState) -> (outcome: Result<Option<DispatchOutcome>, A2aError>)
    ensures
        match outcome {
            Ok(None) => state is Submitted || state is Working,
            Ok(Some(DispatchOutcome::Completed { output })) => state is Completed && output@
                == ""@,
            Ok(Some(DispatchOutcome::Failed { error })) => (state is Failed && error@
                == "remote_failed"@) || (state is Canceled && error@ == "remote_cancelled"@),
            Err(error) => (state is Rejected && error@ == A2aErrorView::Protocol(
                "remote rejected task"@,
            )) || ((state is InputRequired || state is AuthRequired) && error@
                == A2aErrorView::Unsupported),
        },
{
    match state {
        TaskState::Submitted | TaskState::Working => Ok(None),
        TaskState::Completed => Ok(Some(DispatchOutcome::Completed { output: "".to_owned() })),
        TaskState::Failed => Ok(
            Some(DispatchOutcome::Failed { error: "remote_failed".to_owned() }),
        ),
        TaskState::Canceled => Ok(
            Some(DispatchOutcome::Failed { error: "remote_cancelled".to_owned() }),
        ),
        TaskState::Rejected => Err(A2aError::Protocol("remote rejected task")),
        TaskState::InputRequired | TaskState::AuthRequired => Err(A2aError::Unsupported),
    }
}

/// The state a peer sees for the bridge's status.
pub fn project(status: TaskStatus) -> (state: TaskState)
    ensures
        state == projected(status),
{
    match status {
        TaskStatus::Queued => TaskState::Submitted,
        TaskStatus::Dispatched | TaskStatus::Running => TaskState::Working,
        TaskStatus::Completed => TaskState::Completed,
        TaskStatus::Failed | TaskStatus::TimedOut => TaskState::Failed,
        TaskStatus::Cancelled => TaskState::Canceled,
    }
}

/// A status and the state that a peer sees for it mean the same; and a peer's state is read
/// as what it means, unless it has no place in a task that was accepted.
pub proof fn law_states_keep_their_meaning(status: TaskStatus, state: TaskState)
    ensures
        projected(status) is Submitted <==> status is Queued,
        projected(status) is Working <==> (status is Dispatched || status is Running),
        projected(status) is Completed <==> status is Completed,
        projected(status) is Failed <==> (status is Failed || status is TimedOut),
        projected(status) is Canceled <==> status is Cancelled,
        state is Submitted <==> status_for(state) == Ok::<TaskStatus, A2aErrorView>(
            TaskStatus::Queued,
        ),
        state is Working <==> status_for(state) == Ok::<TaskStatus, A2aErrorView>(
            TaskStatus::Running,
        ),
        state is Completed <==> status_for(state) == Ok::<TaskStatus, A2aErrorView>(
            TaskStatus::Completed,
        ),
        (state is Failed || state is AuthRequired) <==> status_for(state) == Ok::<
            TaskStatus,
            A2aErrorView,
        >(TaskStatus::Failed),
        state is Canceled <==> status_for(state) == Ok::<TaskStatus, A2aErrorView>(
            TaskStatus::Cancelled,
        ),
        state is Rejected <==> status_for(state) == Err::<TaskStatus, A2aErrorView>(
            A2aErrorView::Protocol("rejected is pre-acceptance only"@),
        ),
        state is InputRequired <==> status_for(state) == Err::<TaskStatus, A2aErrorView>(
            A2aErrorView::Unsupported,
        ),
{
}

} // verus!
