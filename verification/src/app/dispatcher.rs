//! The dispatchers of agent processes, one for each endpoint.

use std::collections::HashMap;

use vstd::prelude::*;
use vstd::std_specs::hash::*;
use vstd::string::*;

use crate::a2a::dispatcher::fault_of;
use crate::a2a::dispatcher::FaultView;
use crate::bus::worker::DispatchError;
use crate::ids::EndpointId;

verus! {

broadcast use group_hash_axioms;

/// Routes the agent processes' transport to the dispatcher of each endpoint.
#[derive(Debug)]
pub struct AcpDispatcherRouter<D> {
    endpoints: HashMap<u128, D>,
}

impl<D> AcpDispatcherRouter<D> {
    /// The dispatchers, by the identities of their endpoints.
    pub closed spec fn dispatchers(&self) -> Map<u128, D> {
        self.endpoints@
    }

    /// A router without dispatchers.
    pub fn new() -> (router: AcpDispatcherRouter<D>)
        ensures
            router.dispatchers() == Map::<u128, D>::empty(),
    {
        AcpDispatcherRouter { endpoints: HashMap::new() }
    }

    /// The router with a dispatcher for an endpoint, in place of one it may have had.
    pub fn with(self, endpoint: EndpointId, dispatcher: D) -> (router: AcpDispatcherRouter<D>)
        ensures
            router.dispatchers() == self.dispatchers().insert(endpoint.bits(), dispatcher),
    {
        let mut router = self;
        router.endpoints.insert(endpoint.as_u128(), dispatcher);
        router
    }

    /// The dispatcher of an endpoint.
    pub fn endpoint(&self, target: EndpointId) -> (dispatcher: Result<&D, DispatchError>)
        ensures
            match dispatcher {
                Ok(dispatcher) => self.dispatchers().contains_key(target.bits())
                    && self.dispatchers()[target.bits()] == *dispatcher,
                Err(error) => !self.dispatchers().contains_key(target.bits()) && fault_of(error)
                    == FaultView::NotAccepted("ACP endpoint dispatcher unavailable"@),
            },
    {
        let key: u128 = target.as_u128();
        match self.endpoints.get(&key) {
            Some(dispatcher) => Ok(dispatcher),
            None => Err(
                DispatchError::NotAccepted {
                    reason: "ACP endpoint dispatcher unavailable".to_owned(),
                },
            ),
        }
    }
}

} // verus!
