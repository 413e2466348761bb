//! A filter that pauses one phase, chosen by the number of the request, and
//! has it resumed a second later from a task of its own.

use vstd::prelude::*;
use crate::host::{DisposalGuard, HostContext, HostHandle, HostView};
use crate::status::{
    Direction, RequestBodyStatus, RequestHeadersStatus, ResponseBodyStatus, ResponseHeadersStatus,
};

verus! {

/// How long a paused phase waits for its resume, in seconds.
pub const RESUME_DELAY_SECONDS: u64 = 1;

/// The factory of `DelayFilterInstance`. It numbers the requests, from 1.
#[derive(Clone, Copy, Debug, PartialEq, Eq, Structural)]
pub struct DelayFilter {
    /// The number that the next request gets.
    pub next_req_no: usize,
}

/// The instance: the number of its request, and the guarded handle that the
/// resuming task looks at.
#[derive(Clone, Copy, Debug, PartialEq, Eq, Structural)]
pub struct DelayFilterInstance {
    /// The number of the request.
    pub req_no: usize,
    /// The handle, until the instance is destroyed.
    pub guard: DisposalGuard,
}

/// The number after `n`, wrapping to 0 past the largest.
pub open spec fn next_number(n: usize) -> usize {
    if n == usize::MAX {
        0
    } else {
        (n + 1) as usize
    }
}

impl DelayFilter {
    /// A factory whose first request gets the number 1.
    pub fn new() -> (filter: DelayFilter)
        ensures
            filter.next_req_no == 1,
    {
        DelayFilter { next_req_no: 1 }
    }

    /// A fresh instance for one request. It gets the next number, and the
    /// factory moves on to the one after.
    pub fn new_instance(&mut self, handle: HostHandle) -> (instance: DelayFilterInstance)
        ensures
            instance.req_no == old(self).next_req_no,
            instance.guard.handle == Some(handle),
            final(self).next_req_no == next_number(old(self).next_req_no),
    {
        let req_no: usize = self.next_req_no;
        self.next_req_no = req_no.wrapping_add(1);
        DelayFilterInstance { req_no, guard: DisposalGuard::new(handle) }
    }
}

impl DelayFilterInstance {
    /// The host after a phase of the request with number `paused_no` pauses
    /// in `direction`: a resume is scheduled when the instance has that
    /// number.
    pub open spec fn host_after(
        self,
        paused_no: usize,
        direction: Direction,
        host: HostView,
    ) -> HostView {
        if self.req_no == paused_no {
            host.schedule(direction, RESUME_DELAY_SECONDS)
        } else {
            host
        }
    }

    /// Request 1 pauses here and has the request resumed later; every other
    /// request continues.
    pub fn request_headers(&mut self, end_of_stream: bool, host: &mut HostContext) -> (status:
        RequestHeadersStatus)
        ensures
            *final(self) == *old(self),
            status == if old(self).req_no == 1 {
                RequestHeadersStatus::StopAllIterationAndBuffer
            } else {
                RequestHeadersStatus::Continue
            },
            final(host)@ == old(self).host_after(1, Direction::Request, old(host)@),
    {
        if self.req_no == 1 {
            host.schedule_resume(Direction::Request, RESUME_DELAY_SECONDS);
            RequestHeadersStatus::StopAllIterationAndBuffer
        } else {
            RequestHeadersStatus::Continue
        }
    }

    /// Request 2 pauses here and has the request resumed later; every other
    /// request continues.
    pub fn request_body(&mut self, end_of_stream: bool, host: &mut HostContext) -> (status:
        RequestBodyStatus)
        ensures
            *final(self) == *old(self),
            status == if old(self).req_no == 2 {
                RequestBodyStatus::StopIterationAndBuffer
            } else {
                RequestBodyStatus::Continue
            },
            final(host)@ == old(self).host_after(2, Direction::Request, old(host)@),
    {
        if self.req_no == 2 {
            host.schedule_resume(Direction::Request, RESUME_DELAY_SECONDS);
            RequestBodyStatus::StopIterationAndBuffer
        } else {
            RequestBodyStatus::Continue
        }
    }

    /// Request 3 pauses here and has the response resumed later; every other
    /// request continues.
    pub fn response_headers(&mut self, end_of_stream: bool, host: &mut HostContext) -> (status:
        ResponseHeadersStatus)
        ensures
            *final(self) == *old(self),
            status == if old(self).req_no == 3 {
                ResponseHeadersStatus::StopAllIterationAndBuffer
            } else {
                ResponseHeadersStatus::Continue
            },
            final(host)@ == old(self).host_after(3, Direction::Response, old(host)@),
    {
        if self.req_no == 3 {
            host.schedule_resume(Direction::Response, RESUME_DELAY_SECONDS);
            ResponseHeadersStatus::StopAllIterationAndBuffer
        } else {
            ResponseHeadersStatus::Continue
        }
    }

    /// Request 4 pauses here and has the response resumed later; every other
    /// request continues.
    pub fn response_body(&mut self, end_of_stream: bool, host: &mut HostContext) -> (status:
        ResponseBodyStatus)
        ensures
            *final(self) == *old(self),
            status == if old(self).req_no == 4 {
                ResponseBodyStatus::StopIterationAndBuffer
            } else {
                ResponseBodyStatus::Continue
            },
            final(host)@ == old(self).host_after(4, Direction::Response, old(host)@),
    {
        if self.req_no == 4 {
            host.schedule_resume(Direction::Response, RESUME_DELAY_SECONDS);
            ResponseBodyStatus::StopIterationAndBuffer
        } else {
            ResponseBodyStatus::Continue
        }
    }

    /// Gives the handle up, so that a resume that is still on its way does
    /// nothing when it arrives.
    pub fn destroy(&mut self)
        ensures
            final(self).req_no == old(self).req_no,
            final(self).guard.handle.is_none(),
    {
        self.guard.release();
    }

    /// The host after a scheduled resume of `direction` arrives.
    pub open spec fn host_after_resume(self, direction: Direction, host: HostView) -> HostView {
        if self.guard.handle.is_some() {
            host.resume(direction)
        } else {
            host
        }
    }

    /// What the resuming task does when its wait is over: it asks the host
    /// to resume `direction` if the instance still holds its handle, and
    /// does nothing, reading and changing nothing of the host, if the
    /// instance was destroyed meanwhile. Returns whether it asked.
    pub fn resume(&self, direction: Direction, host: &mut HostContext) -> (asked: bool)
        ensures
            asked == self.guard.handle.is_some(),
            final(host)@ == self.host_after_resume(direction, old(host)@),
    {
        if self.guard.is_live() {
            match direction {
                Direction::Request => host.continue_request(),
                Direction::Response => host.continue_response(),
            }
            true
        } else {
            false
        }
    }
}

} // verus!
