//! A filter that waits for the whole request body and turns the request
//! down when the body does not decode as the JSON document it expects.
//! Decoding is the caller's work: the filter says when it is due, and
//! decides on its outcome.

use vstd::prelude::*;
use crate::host::{HostContext, HostHandle, HostView};
use crate::status::{RequestBodyStatus, BAD_REQUEST};

verus! {

/// The document that the request body has to hold.
#[derive(Debug)]
pub struct ValidateJsonFilterBody {
    /// The one field that has to be there.
    pub foo: String,
}

/// What a request body frame leads to.
#[derive(Clone, Copy, Debug, PartialEq, Eq, Structural)]
pub enum RequestBodyStep {
    /// The phase is done for this frame, with this status.
    Done(RequestBodyStatus),
    /// The instance needs the accumulated body decoded, and goes on when it
    /// is told the outcome.
    Decode,
}

/// The factory of `ValidateJsonFilterInstance`.
#[derive(Clone, Copy, Debug, PartialEq, Eq, Structural)]
pub struct ValidateJsonFilter {}

/// The instance: it holds nothing.
#[derive(Clone, Copy, Debug, PartialEq, Eq, Structural)]
pub struct ValidateJsonFilterInstance {}

impl ValidateJsonFilter {
    /// A fresh instance for one request.
    pub fn new_instance(&mut self, handle: HostHandle) -> (instance: ValidateJsonFilterInstance)
        ensures
            *final(self) == *old(self),
    {
        ValidateJsonFilterInstance {  }
    }
}

impl ValidateJsonFilterInstance {
    /// Before the end of the stream the frame is withheld, so that the whole
    /// body accumulates; at the end the body is due for decoding.
    pub fn request_body(&mut self, end_of_stream: bool) -> (step: RequestBodyStep)
        ensures
            *final(self) == *old(self),
            step == if end_of_stream {
                RequestBodyStep::Decode
            } else {
                RequestBodyStep::Done(RequestBodyStatus::StopIterationAndBuffer)
            },
    {
        if !end_of_stream {
            return RequestBodyStep::Done(RequestBodyStatus::StopIterationAndBuffer);
        }
        RequestBodyStep::Decode
    }

    /// The host after the outcome of decoding is known.
    pub open spec fn host_after_decoding(decoded: bool, host: HostView) -> HostView {
        if decoded {
            host
        } else {
            host.reject(BAD_REQUEST)
        }
    }

    /// Decides on the outcome of decoding the accumulated body: `Some` with
    /// the document, or `None` when the body did not decode. A body that
    /// did not decode is answered with status 400, without headers or body.
    /// Continues either way.
    pub fn request_body_decoded(
        &mut self,
        decoded: Option<ValidateJsonFilterBody>,
        host: &mut HostContext,
    ) -> (status: RequestBodyStatus)
        ensures
            *final(self) == *old(self),
            status == RequestBodyStatus::Continue,
            final(host)@ == Self::host_after_decoding(decoded.is_some(), old(host)@),
    {
        match decoded {
            Some(_body) => {},
            None => {
                host.reject(BAD_REQUEST);
            },
        }
        RequestBodyStatus::Continue
    }
}

} // verus!
