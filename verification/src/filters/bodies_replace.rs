//! A filter that takes from the headers what to add to the body, or what to
//! put in its place, and does so once the whole body has accumulated.

use vstd::prelude::*;
use vstd::string::StringSliceAdditionalSpecFns;
use vstd::utf8::valid_utf8;
use crate::buffer::{appended, prepended, ByteBuffer};
use crate::bytes::{to_vec, utf8_accepts};
use crate::headers::{first_value, without, HeaderMap};
use crate::host::{HostContext, HostHandle, HostView};
use crate::status::{
    RequestBodyStatus, RequestHeadersStatus, ResponseBodyStatus, ResponseHeadersStatus,
    BAD_REQUEST, INTERNAL_SERVER_ERROR,
};

verus! {

/// The factory of `BodiesReplaceInstance`.
#[derive(Clone, Copy, Debug, PartialEq, Eq, Structural)]
pub struct BodiesReplace {}

/// The instance: the instructions noted from the headers of each direction.
/// An empty instruction is none.
#[derive(Debug)]
pub struct BodiesReplaceInstance {
    request_append: Vec<u8>,
    request_prepend: Vec<u8>,
    request_replace: Vec<u8>,
    response_append: Vec<u8>,
    response_prepend: Vec<u8>,
    response_replace: Vec<u8>,
}

/// The instructions for one direction.
pub struct Instructions {
    /// What to add at the end of the body.
    pub append: Seq<u8>,
    /// What to add at the front of the body.
    pub prepend: Seq<u8>,
    /// What to put in place of the body.
    pub replace: Seq<u8>,
}

/// What a `BodiesReplaceInstance` holds.
pub struct BodiesReplaceView {
    /// The instructions for the request body.
    pub request: Instructions,
    /// The instructions for the response body.
    pub response: Instructions,
}

impl View for BodiesReplaceInstance {
    type V = BodiesReplaceView;

    closed spec fn view(&self) -> BodiesReplaceView {
        BodiesReplaceView {
            request: Instructions {
                append: self.request_append@,
                prepend: self.request_prepend@,
                replace: self.request_replace@,
            },
            response: Instructions {
                append: self.response_append@,
                prepend: self.response_prepend@,
                replace: self.response_replace@,
            },
        }
    }
}

/// An instruction is acceptable when it is absent or text.
pub open spec fn acceptable(instruction: Option<Seq<u8>>) -> bool {
    instruction matches Some(value) ==> valid_utf8(value)
}

/// The headers' instructions are all acceptable.
pub open spec fn instructions_acceptable(headers: Seq<(Seq<u8>, Seq<u8>)>) -> bool {
    &&& acceptable(first_value(headers, "append".spec_bytes()))
    &&& acceptable(first_value(headers, "prepend".spec_bytes()))
    &&& acceptable(first_value(headers, "replace".spec_bytes()))
}

/// The instruction that stands after the headers were read: the one they
/// give, or the one that stood before where they give none.
pub open spec fn noted(before: Seq<u8>, given: Option<Seq<u8>>) -> Seq<u8> {
    match given {
        Some(value) => value,
        None => before,
    }
}

impl Instructions {
    /// No instructions.
    pub open spec fn none() -> Instructions {
        Instructions { append: Seq::empty(), prepend: Seq::empty(), replace: Seq::empty() }
    }

    /// The instructions after `headers` were read.
    pub open spec fn after_headers(self, headers: Seq<(Seq<u8>, Seq<u8>)>) -> Instructions {
        Instructions {
            append: noted(self.append, first_value(headers, "append".spec_bytes())),
            prepend: noted(self.prepend, first_value(headers, "prepend".spec_bytes())),
            replace: noted(self.replace, first_value(headers, "replace".spec_bytes())),
        }
    }

    /// The body after the instructions were carried out on it: first the
    /// append, then the prepend, then the replace, each only if it is not
    /// empty.
    pub open spec fn carried_out(self, body: Seq<Seq<u8>>) -> Seq<Seq<u8>> {
        let added = prepended(appended(body, self.append), self.prepend);
        if self.replace.len() == 0 {
            added
        } else {
            seq![self.replace]
        }
    }
}

/// Whether an instruction is acceptable.
fn check_instruction(instruction: Option<&[u8]>) -> (pass: bool)
    ensures
        pass == match instruction {
            Some(value) => valid_utf8(value@),
            None => true,
        },
{
    match instruction {
        Some(value) => utf8_accepts(value),
        None => true,
    }
}

/// Notes an instruction: a copy of the value that the headers give, or what
/// stood before where they give none.
fn note(before: &mut Vec<u8>, given: Option<&[u8]>)
    ensures
        final(before)@ == match given {
            Some(value) => value@,
            None => old(before)@,
        },
{
    match given {
        Some(value) => {
            *before = to_vec(value);
        },
        None => {},
    }
}

/// Carries instructions out on a body.
fn carry_out(body: &mut ByteBuffer, append: &Vec<u8>, prepend: &Vec<u8>, replace: &Vec<u8>)
    ensures
        final(body)@ == (Instructions {
            append: append@,
            prepend: prepend@,
            replace: replace@,
        }).carried_out(old(body)@),
{
    if !append.is_empty() {
        body.append(append.as_slice());
    }
    if !prepend.is_empty() {
        body.prepend(prepend.as_slice());
    }
    if !replace.is_empty() {
        body.replace(replace.as_slice());
        assert(body@ =~= seq![replace@]);
    }
}

impl BodiesReplace {
    /// A fresh instance for one request, without instructions.
    pub fn new_instance(&mut self, handle: HostHandle) -> (instance: BodiesReplaceInstance)
        ensures
            *final(self) == *old(self),
            instance@.request == Instructions::none(),
            instance@.response == Instructions::none(),
    {
        BodiesReplaceInstance {
            request_append: Vec::new(),
            request_prepend: Vec::new(),
            request_replace: Vec::new(),
            response_append: Vec::new(),
            response_prepend: Vec::new(),
            response_replace: Vec::new(),
        }
    }
}

impl BodiesReplaceInstance {
    /// Notes the instructions that the headers `append`, `prepend` and
    /// `replace` give for the request body, and removes `content-length`,
    /// which will no longer fit. If one of the three is not text, nothing
    /// is noted or removed, and the request is answered with status 400.
    /// Continues either way.
    pub fn request_headers(
        &mut self,
        request_headers: &mut HeaderMap,
        end_of_stream: bool,
        host: &mut HostContext,
    ) -> (status: RequestHeadersStatus)
        ensures
            status == RequestHeadersStatus::Continue,
            final(self)@.response == old(self)@.response,
            instructions_acceptable(old(request_headers)@) ==> {
                &&& final(self)@.request == old(self)@.request.after_headers(old(request_headers)@)
                &&& final(request_headers)@ == without(
                    old(request_headers)@,
                    "content-length".spec_bytes(),
                )
                &&& final(host)@ == old(host)@
            },
            !instructions_acceptable(old(request_headers)@) ==> {
                &&& final(self)@ == old(self)@
                &&& final(request_headers)@ == old(request_headers)@
                &&& final(host)@ == old(host)@.reject(BAD_REQUEST)
            },
    {
        let append = request_headers.get_first("append".as_bytes());
        let prepend = request_headers.get_first("prepend".as_bytes());
        let replace = request_headers.get_first("replace".as_bytes());
        if !(check_instruction(append) && check_instruction(prepend) && check_instruction(replace)) {
            host.reject(BAD_REQUEST);
            return RequestHeadersStatus::Continue;
        }
        note(&mut self.request_append, append);
        note(&mut self.request_prepend, prepend);
        note(&mut self.request_replace, replace);
        request_headers.remove("content-length".as_bytes());
        RequestHeadersStatus::Continue
    }

    /// Before the end of the stream the frame is withheld, so that the whole
    /// body accumulates. At the end the instructions for the request body
    /// are carried out on the accumulated body.
    pub fn request_body(&mut self, end_of_stream: bool, host: &mut HostContext) -> (status:
        RequestBodyStatus)
        ensures
            final(self)@ == old(self)@,
            status == if end_of_stream {
                RequestBodyStatus::Continue
            } else {
                RequestBodyStatus::StopIterationAndBuffer
            },
            end_of_stream ==> final(host)@ == (HostView {
                request_body: old(self)@.request.carried_out(old(host)@.request_body),
                ..old(host)@
            }),
            !end_of_stream ==> final(host)@ == old(host)@,
    {
        if !end_of_stream {
            return RequestBodyStatus::StopIterationAndBuffer;
        }
        let entire_body = host.get_request_body_buffer();
        carry_out(entire_body, &self.request_append, &self.request_prepend, &self.request_replace);
        RequestBodyStatus::Continue
    }

    /// Notes the instructions that the headers `append`, `prepend` and
    /// `replace` give for the response body, and removes `content-length`,
    /// which will no longer fit. If one of the three is not text, nothing
    /// is noted or removed, and the exchange is answered with status 500.
    /// Continues either way.
    pub fn response_headers(
        &mut self,
        response_headers: &mut HeaderMap,
        end_of_stream: bool,
        host: &mut HostContext,
    ) -> (status: ResponseHeadersStatus)
        ensures
            status == ResponseHeadersStatus::Continue,
            final(self)@.request == old(self)@.request,
            instructions_acceptable(old(response_headers)@) ==> {
                &&& final(self)@.response == old(self)@.response.after_headers(
                    old(response_headers)@,
                )
                &&& final(response_headers)@ == without(
                    old(response_headers)@,
                    "content-length".spec_bytes(),
                )
                &&& final(host)@ == old(host)@
            },
            !instructions_acceptable(old(response_headers)@) ==> {
                &&& final(self)@ == old(self)@
                &&& final(response_headers)@ == old(response_headers)@
                &&& final(host)@ == old(host)@.reject(INTERNAL_SERVER_ERROR)
            },
    {
        let append = response_headers.get_first("append".as_bytes());
        let prepend = response_headers.get_first("prepend".as_bytes());
        let replace = response_headers.get_first("replace".as_bytes());
        if !(check_instruction(append) && check_instruction(prepend) && check_instruction(replace)) {
            host.reject(INTERNAL_SERVER_ERROR);
            return ResponseHeadersStatus::Continue;
        }
        note(&mut self.response_append, append);
        note(&mut self.response_prepend, prepend);
        note(&mut self.response_replace, replace);
        response_headers.remove("content-length".as_bytes());
        ResponseHeadersStatus::Continue
    }

    /// Before the end of the stream the frame is withheld, so that the whole
    /// body accumulates. At the end the instructions for the response body
    /// are carried out on the accumulated body.
    pub fn response_body(&mut self, end_of_stream: bool, host: &mut HostContext) -> (status:
        ResponseBodyStatus)
        ensures
            final(self)@ == old(self)@,
            status == if end_of_stream {
                ResponseBodyStatus::Continue
            } else {
                ResponseBodyStatus::StopIterationAndBuffer
            },
            end_of_stream ==> final(host)@ == (HostView {
                response_body: old(self)@.response.carried_out(old(host)@.response_body),
                ..old(host)@
            }),
            !end_of_stream ==> final(host)@ == old(host)@,
    {
        if !end_of_stream {
            return ResponseBodyStatus::StopIterationAndBuffer;
        }
        let entire_body = host.get_response_body_buffer();
        carry_out(
            entire_body,
            &self.response_append,
            &self.response_prepend,
            &self.response_replace,
        );
        ResponseBodyStatus::Continue
    }
}

} // verus!
