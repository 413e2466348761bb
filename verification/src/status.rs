//! The statuses by which a filter instance tells the driver how to go on.
//! A status carries no payload: what a filter changes, it changes in place
//! before it returns.

use vstd::prelude::*;

verus! {

/// The status code of the response that turns down what a request brought.
pub const BAD_REQUEST: u32 = 400;

/// The status code of the response that turns down what the upstream
/// answered.
pub const INTERNAL_SERVER_ERROR: u32 = 500;

/// What a filter instance answers to the request headers.
#[derive(Clone, Copy, Debug, PartialEq, Eq, Structural)]
pub enum RequestHeadersStatus {
    /// Go on normally.
    Continue,
    /// Pause this phase; nothing is promised about buffering.
    StopIteration,
    /// Pause the whole exchange and buffer the body frames that follow.
    StopAllIterationAndBuffer,
}

/// What a filter instance answers to a frame of the request body.
#[derive(Clone, Copy, Debug, PartialEq, Eq, Structural)]
pub enum RequestBodyStatus {
    /// Forward the frame as it now is.
    Continue,
    /// Withhold the frame and keep accumulating.
    StopIterationAndBuffer,
}

/// What a filter instance answers to the response headers.
#[derive(Clone, Copy, Debug, PartialEq, Eq, Structural)]
pub enum ResponseHeadersStatus {
    /// Go on normally.
    Continue,
    /// Pause this phase; nothing is promised about buffering.
    StopIteration,
    /// Pause the whole exchange and buffer the body frames that follow.
    StopAllIterationAndBuffer,
}

/// What a filter instance answers to a frame of the response body.
#[derive(Clone, Copy, Debug, PartialEq, Eq, Structural)]
pub enum ResponseBodyStatus {
    /// Forward the frame as it now is.
    Continue,
    /// Withhold the frame and keep accumulating.
    StopIterationAndBuffer,
}

/// The two directions of an exchange.
#[derive(Clone, Copy, Debug, PartialEq, Eq, Structural)]
pub enum Direction {
    /// From the client to the upstream.
    Request,
    /// From the upstream back to the client.
    Response,
}

impl RequestHeadersStatus {
    /// Whether the status pauses the phase.
    pub open spec fn pauses(self) -> bool {
        self != RequestHeadersStatus::Continue
    }

    /// Whether the status pauses the phase.
    #[verifier::when_used_as_spec(pauses)]
    pub fn is_pause(self) -> (pause: bool)
        ensures
            pause == self.pauses(),
    {
        match self {
            RequestHeadersStatus::Continue => false,
            _ => true,
        }
    }
}

impl RequestBodyStatus {
    /// Whether the status pauses the phase.
    pub open spec fn pauses(self) -> bool {
        self != RequestBodyStatus::Continue
    }

    /// Whether the status pauses the phase.
    #[verifier::when_used_as_spec(pauses)]
    pub fn is_pause(self) -> (pause: bool)
        ensures
            pause == self.pauses(),
    {
        match self {
            RequestBodyStatus::Continue => false,
            _ => true,
        }
    }
}

impl ResponseHeadersStatus {
    /// Whether the status pauses the phase.
    pub open spec fn pauses(self) -> bool {
        self != ResponseHeadersStatus::Continue
    }

    /// Whether the status pauses the phase.
    #[verifier::when_used_as_spec(pauses)]
    pub fn is_pause(self) -> (pause: bool)
        ensures
            pause == self.pauses(),
    {
        match self {
            ResponseHeadersStatus::Continue => false,
            _ => true,
        }
    }
}

impl ResponseBodyStatus {
    /// Whether the status pauses the phase.
    pub open spec fn pauses(self) -> bool {
        self != ResponseBodyStatus::Continue
    }

    /// Whether the status pauses the phase.
    #[verifier::when_used_as_spec(pauses)]
    pub fn is_pause(self) -> (pause: bool)
        ensures
            pause == self.pauses(),
    {
        match self {
            ResponseBodyStatus::Continue => false,
            _ => true,
        }
    }
}

} // verus!
