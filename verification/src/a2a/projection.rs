//! Which events end an exchange.

use vstd::prelude::*;
use vstd::string::*;

use crate::bus::fanout::ConsumerError;
use crate::models::TaskStatus;

verus! {

/// Whether an event with `status` is projected onto the exchange of its task: only
/// the end of a task is.
pub fn projects(status: TaskStatus) -> (yes: bool)
    ensures
        yes == status.terminal(),
{
    status.is_terminal()
}

/// What a consumer reports for a projection that was done or failed.
pub fn projection_result(done: bool) -> (result: Result<(), ConsumerError>)
    ensures
        match result {
            Ok(_) => done,
            Err(ConsumerError::Failed { reason }) => !done && reason@
                == "A2A terminal projection failed"@,
        },
{
    if done {
        Ok(())
    } else {
        Err(ConsumerError::Failed { reason: "A2A terminal projection failed".to_owned() })
    }
}

} // verus!
