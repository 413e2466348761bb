//! The host side of one exchange, as a filter instance reaches it: the
//! accumulated body buffers, the synthesized response, the resume signals,
//! and the disposal guard that makes a late resume a no-op.

use vstd::prelude::*;
use crate::buffer::ByteBuffer;
use crate::bytes::to_vec;
use crate::status::Direction;

verus! {

/// A response that a filter made up itself, in place of the upstream's.
#[derive(Debug)]
pub struct LocalResponse {
    /// The HTTP status code.
    pub status_code: u32,
    /// The headers, in order.
    pub headers: Vec<(Vec<u8>, Vec<u8>)>,
    /// The body.
    pub body: Vec<u8>,
}

/// What a `LocalResponse` holds.
pub struct LocalResponseView {
    /// The HTTP status code.
    pub status_code: u32,
    /// The headers, in order.
    pub headers: Seq<(Seq<u8>, Seq<u8>)>,
    /// The body.
    pub body: Seq<u8>,
}

/// The pairs of a header list, as byte sequences.
pub open spec fn pairs_view(headers: Seq<(&[u8], &[u8])>) -> Seq<(Seq<u8>, Seq<u8>)> {
    Seq::new(headers.len(), |i: int| (headers[i].0@, headers[i].1@))
}

impl View for LocalResponse {
    type V = LocalResponseView;

    open spec fn view(&self) -> LocalResponseView {
        LocalResponseView {
            status_code: self.status_code,
            headers: Seq::new(self.headers@.len(), |i: int| (self.headers@[i].0@, self.headers@[i].1@)),
            body: self.body@,
        }
    }
}

/// A resume that a filter asked to have made later, from another task.
#[derive(Clone, Copy, Debug, PartialEq, Eq, Structural)]
pub struct ScheduledResume {
    /// The instance that asked, by its place in the chain.
    pub instance: usize,
    /// The direction to resume.
    pub direction: Direction,
    /// How long to wait first.
    pub delay_seconds: u64,
}

/// The names by which filter instances reach the host side of an exchange.
#[derive(Clone, Copy, Debug, PartialEq, Eq, Structural)]
pub struct HostHandle {
    /// The exchange that the handle belongs to.
    pub stream_id: u64,
}

/// A handle that is given up when its owner is destroyed. A task that was
/// started earlier and still holds the guard finds it empty and does
/// nothing.
#[derive(Clone, Copy, Debug, PartialEq, Eq, Structural)]
pub struct DisposalGuard {
    /// The handle, until it is released.
    pub handle: Option<HostHandle>,
}

impl DisposalGuard {
    /// A guard that holds `handle`.
    pub fn new(handle: HostHandle) -> (guard: DisposalGuard)
        ensures
            guard.handle == Some(handle),
    {
        DisposalGuard { handle: Some(handle) }
    }

    /// Gives the handle up. Releasing twice is releasing once.
    pub fn release(&mut self)
        ensures
            final(self).handle.is_none(),
    {
        self.handle = None;
    }

    /// Whether the handle is still held.
    pub fn is_live(&self) -> (live: bool)
        ensures
            live == self.handle.is_some(),
    {
        self.handle.is_some()
    }
}

/// What a `HostContext` holds.
pub struct HostView {
    /// The segments of the accumulated request body.
    pub request_body: Seq<Seq<u8>>,
    /// The segments of the accumulated response body.
    pub response_body: Seq<Seq<u8>>,
    /// The synthesized response, once a filter has sent one.
    pub local_response: Option<LocalResponseView>,
    /// Whether a resume of the request direction was asked for.
    pub request_resume: bool,
    /// Whether a resume of the response direction was asked for.
    pub response_resume: bool,
    /// The resumes that filters asked to have made later, oldest first.
    pub scheduled: Seq<ScheduledResume>,
    /// The instance that is being called, by its place in the chain.
    pub caller: usize,
}

/// The host side of one exchange.
pub struct HostContext {
    request_body: ByteBuffer,
    response_body: ByteBuffer,
    local_response: Option<LocalResponse>,
    request_resume: bool,
    response_resume: bool,
    scheduled: Vec<ScheduledResume>,
    caller: usize,
}

impl View for HostContext {
    type V = HostView;

    closed spec fn view(&self) -> HostView {
        HostView {
            request_body: self.request_body@,
            response_body: self.response_body@,
            local_response: match self.local_response {
                Some(response) => Some(response@),
                None => None,
            },
            request_resume: self.request_resume,
            response_resume: self.response_resume,
            scheduled: self.scheduled@,
            caller: self.caller,
        }
    }
}

impl HostView {
    /// The host side of an exchange on which nothing has happened yet.
    pub open spec fn fresh() -> HostView {
        HostView {
            request_body: Seq::empty(),
            response_body: Seq::empty(),
            local_response: None,
            request_resume: false,
            response_resume: false,
            scheduled: Seq::empty(),
            caller: 0,
        }
    }

    /// The state after a filter sent a synthesized response: the first one
    /// sent stands, a later one changes nothing.
    pub open spec fn send_response(self, response: LocalResponseView) -> HostView {
        if self.local_response.is_some() {
            self
        } else {
            HostView { local_response: Some(response), ..self }
        }
    }

    /// The state after a filter turned the exchange down with `status_code`:
    /// a synthesized response without headers and without a body.
    pub open spec fn reject(self, status_code: u32) -> HostView {
        self.send_response(
            LocalResponseView { status_code, headers: Seq::empty(), body: Seq::empty() },
        )
    }

    /// The state after a resume of `direction` was asked for.
    pub open spec fn resume(self, direction: Direction) -> HostView {
        match direction {
            Direction::Request => HostView { request_resume: true, ..self },
            Direction::Response => HostView { response_resume: true, ..self },
        }
    }

    /// The state after the driver has acted on a resume of `direction`.
    pub open spec fn resumed(self, direction: Direction) -> HostView {
        match direction {
            Direction::Request => HostView { request_resume: false, ..self },
            Direction::Response => HostView { response_resume: false, ..self },
        }
    }

    /// Whether a resume of `direction` was asked for and not acted on yet.
    pub open spec fn resume_asked(self, direction: Direction) -> bool {
        match direction {
            Direction::Request => self.request_resume,
            Direction::Response => self.response_resume,
        }
    }

    /// The state after the instance being called asked for a later resume.
    pub open spec fn schedule(self, direction: Direction, delay_seconds: u64) -> HostView {
        HostView {
            scheduled: self.scheduled.push(
                ScheduledResume { instance: self.caller, direction, delay_seconds },
            ),
            ..self
        }
    }
}

impl HostContext {
    /// The host side of an exchange on which nothing has happened yet.
    pub fn new() -> (host: HostContext)
        ensures
            host@ == HostView::fresh(),
    {
        HostContext {
            request_body: ByteBuffer::new(),
            response_body: ByteBuffer::new(),
            local_response: None,
            request_resume: false,
            response_resume: false,
            scheduled: Vec::new(),
            caller: 0,
        }
    }

    /// The accumulated request body: the buffer itself, not a copy.
    pub fn get_request_body_buffer(&mut self) -> (buffer: &mut ByteBuffer)
        ensures
            buffer@ == old(self)@.request_body,
            final(self)@ == (HostView { request_body: final(buffer)@, ..old(self)@ }),
    {
        &mut self.request_body
    }

    /// The accumulated response body: the buffer itself, not a copy.
    pub fn get_response_body_buffer(&mut self) -> (buffer: &mut ByteBuffer)
        ensures
            buffer@ == old(self)@.response_body,
            final(self)@ == (HostView { response_body: final(buffer)@, ..old(self)@ }),
    {
        &mut self.response_body
    }

    /// The accumulated request body, to read.
    pub fn request_body(&self) -> (buffer: &ByteBuffer)
        ensures
            buffer@ == self@.request_body,
    {
        &self.request_body
    }

    /// The accumulated response body, to read.
    pub fn response_body(&self) -> (buffer: &ByteBuffer)
        ensures
            buffer@ == self@.response_body,
    {
        &self.response_body
    }

    /// Sends a synthesized response in place of the upstream's. The first
    /// response sent stands; a later call changes nothing.
    pub fn send_response(&mut self, status_code: u32, headers: &[(&[u8], &[u8])], body: &[u8])
        ensures
            final(self)@ == old(self)@.send_response(
                LocalResponseView { status_code, headers: pairs_view(headers@), body: body@ },
            ),
    {
        if self.local_response.is_some() {
            return;
        }
        let mut owned: Vec<(Vec<u8>, Vec<u8>)> = Vec::new();
        let mut i: usize = 0;
        while i < headers.len()
            invariant
                i <= headers@.len(),
                owned@.len() == i,
                forall|k: int|
                    0 <= k < i ==> (#[trigger] owned@[k]).0@ == headers@[k].0@ && owned@[k].1@
                        == headers@[k].1@,
            decreases headers@.len() - i,
        {
            owned.push((to_vec(headers[i].0), to_vec(headers[i].1)));
            i += 1;
        }
        let response = LocalResponse { status_code, headers: owned, body: to_vec(body) };
        assert(response@.headers =~= pairs_view(headers@));
        self.local_response = Some(response);
    }

    /// Turns the exchange down with `status_code`: sends a synthesized
    /// response without headers and without a body.
    pub fn reject(&mut self, status_code: u32)
        ensures
            final(self)@ == old(self)@.reject(status_code),
    {
        let headers: Vec<(&[u8], &[u8])> = Vec::new();
        let body: Vec<u8> = Vec::new();
        assert(pairs_view(headers@) =~= Seq::<(Seq<u8>, Seq<u8>)>::empty());
        self.send_response(status_code, headers.as_slice(), body.as_slice());
    }

    /// The synthesized response, if a filter has sent one.
    pub fn local_response(&self) -> (response: Option<&LocalResponse>)
        ensures
            match response {
                Some(sent) => self@.local_response == Some(sent@),
                None => self@.local_response.is_none(),
            },
    {
        self.local_response.as_ref()
    }

    /// Asks for the request direction to be resumed. Asking again before the
    /// driver has acted is asking once.
    pub fn continue_request(&mut self)
        ensures
            final(self)@ == old(self)@.resume(Direction::Request),
    {
        self.request_resume = true;
    }

    /// Asks for the response direction to be resumed. Asking again before
    /// the driver has acted is asking once.
    pub fn continue_response(&mut self)
        ensures
            final(self)@ == old(self)@.resume(Direction::Response),
    {
        self.response_resume = true;
    }

    /// Asks, for the instance being called, that `direction` be resumed
    /// after `delay_seconds`, from a task of its own.
    pub fn schedule_resume(&mut self, direction: Direction, delay_seconds: u64)
        ensures
            final(self)@ == old(self)@.schedule(direction, delay_seconds),
    {
        let caller: usize = self.caller;
        self.scheduled.push(ScheduledResume { instance: caller, direction, delay_seconds });
    }
    /// Says which instance is being called from now on.
    pub fn set_caller(&mut self, caller: usize)
        ensures
            final(self)@ == (HostView { caller, ..old(self)@ }),
    {
        self.caller = caller;
    }

    /// Whether a filter has sent a synthesized response.
    pub fn has_local_response(&self) -> (sent: bool)
        ensures
            sent == self@.local_response.is_some(),
    {
        self.local_response.is_some()
    }

    /// Whether a resume of `direction` was asked for; the request is taken
    /// off, so that it is acted on once.
    pub fn take_resume(&mut self, direction: Direction) -> (asked: bool)
        ensures
            asked == old(self)@.resume_asked(direction),
            final(self)@ == old(self)@.resumed(direction),
    {
        match direction {
            Direction::Request => {
                let asked = self.request_resume;
                self.request_resume = false;
                asked
            },
            Direction::Response => {
                let asked = self.response_resume;
                self.response_resume = false;
                asked
            },
        }
    }

    /// The resumes that filters asked to have made later, oldest first. They
    /// are handed over: the host keeps none of them.
    pub fn take_scheduled(&mut self) -> (scheduled: Vec<ScheduledResume>)
        ensures
            scheduled@ == old(self)@.scheduled,
            final(self)@ == (HostView { scheduled: Seq::empty(), ..old(self)@ }),
    {
        let mut scheduled: Vec<ScheduledResume> = Vec::new();
        scheduled.append(&mut self.scheduled);
        assert(scheduled@ =~= old(self)@.scheduled);
        scheduled
    }
}

} // verus!
