//! Why a submission or an event write failed.

use vstd::prelude::*;
use vstd::string::*;
use crate::ids::{hyphenated, EndpointId};

verus! {

/// A task submission or an event write failed.
#[derive(Debug, Clone, Copy, PartialEq, Eq, Structural)]
pub enum BusError {
    /// The target is not declared. Nothing was enqueued and no event was written.
    UnknownTarget {
        /// The rejected target.
        endpoint_id: EndpointId,
    },
    /// The target is declared but disabled. Nothing was enqueued and no event was
    /// written.
    TargetDisabled {
        /// The rejected target.
        endpoint_id: EndpointId,
    },
    /// The target is declared and enabled, but has no address. Nothing was enqueued
    /// and no event was written.
    AddressUnavailable {
        /// The rejected target.
        endpoint_id: EndpointId,
    },
    /// The task queue is full. Nothing was enqueued and no event was written.
    QueueFull,
    /// The event buffer is full. The task was already enqueued.
    EventBufferFull,
    /// The task consumer is gone. Nothing was enqueued.
    TaskChannelClosed,
    /// The event consumer is gone. The task was already enqueued.
    EventSinkClosed,
}

impl BusError {
    /// The rendered error: fixed text, and the endpoint where there is one.
    pub open spec fn rendered(self) -> Seq<char> {
        match self {
            BusError::UnknownTarget { endpoint_id } => "unknown target endpoint: "@ + hyphenated(
                endpoint_id.bits(),
            ),
            BusError::TargetDisabled { endpoint_id } => "target endpoint is disabled: "@
                + hyphenated(endpoint_id.bits()),
            BusError::AddressUnavailable { endpoint_id } => "endpoint address is not available: "@
                + hyphenated(endpoint_id.bits()),
            BusError::QueueFull => "task queue is full"@,
            BusError::EventBufferFull => "event buffer is full"@,
            BusError::TaskChannelClosed => "task channel is closed"@,
            BusError::EventSinkClosed => "event sink is closed"@,
        }
    }

    /// Renders the error.
    pub fn to_string(&self) -> (text: String)
        ensures
            text@ == self.rendered(),
    {
        match *self {
            BusError::UnknownTarget { endpoint_id } => {
                let mut text = "unknown target endpoint: ".to_owned();
                text.append(endpoint_id.to_string().as_str());
                text
            },
            BusError::TargetDisabled { endpoint_id } => {
                let mut text = "target endpoint is disabled: ".to_owned();
                text.append(endpoint_id.to_string().as_str());
                text
            },
            BusError::AddressUnavailable { endpoint_id } => {
                let mut text = "endpoint address is not available: ".to_owned();
                text.append(endpoint_id.to_string().as_str());
                text
            },
            BusError::QueueFull => "task queue is full".to_owned(),
            BusError::EventBufferFull => "event buffer is full".to_owned(),
            BusError::TaskChannelClosed => "task channel is closed".to_owned(),
            BusError::EventSinkClosed => "event sink is closed".to_owned(),
        }
    }
}

} // verus!
