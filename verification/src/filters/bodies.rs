//! A filter that waits for the whole body, reads it as text, and then
//! blanks it out in place.

use vstd::prelude::*;
use vstd::slice::slice_subrange;
use vstd::utf8::valid_utf8;
use crate::buffer::{filled, ByteBuffer};
use crate::bytes::utf8_accepts;
use crate::host::{HostContext, HostHandle, HostView};
use crate::status::{
    RequestBodyStatus, ResponseBodyStatus, BAD_REQUEST, INTERNAL_SERVER_ERROR,
};

verus! {

/// How many bytes the filter reads at a time.
pub const CHUNK_SIZE: usize = 2;

/// The byte that blanks out a request body: `X`.
pub const REQUEST_BLANK: u8 = 88;

/// The byte that blanks out a response body: `Y`.
pub const RESPONSE_BLANK: u8 = 89;

/// The factory of `BodiesFilterInstance`.
#[derive(Clone, Copy, Debug, PartialEq, Eq, Structural)]
pub struct BodiesFilter {}

/// The instance: it holds nothing.
#[derive(Clone, Copy, Debug, PartialEq, Eq, Structural)]
pub struct BodiesFilterInstance {}

/// Chunk `k` of `content`: the bytes from `2 * k` up to `2 * k + 2`, or up to
/// the end where that comes first.
pub open spec fn chunk(content: Seq<u8>, k: int) -> Seq<u8> {
    content.subrange(
        CHUNK_SIZE * k,
        if CHUNK_SIZE * k + CHUNK_SIZE <= content.len() {
            CHUNK_SIZE * k + CHUNK_SIZE
        } else {
            content.len() as int
        },
    )
}

/// The content is text as a whole, and so is each of its chunks by itself.
pub open spec fn reads_as_text(content: Seq<u8>) -> bool {
    &&& valid_utf8(content)
    &&& forall|k: int|
        0 <= k && CHUNK_SIZE * k < content.len() ==> valid_utf8(#[trigger] chunk(content, k))
}

/// What the filter makes of a body frame: the body after it, the host after
/// it, and whether the frame is withheld.
pub open spec fn body_outcome(
    frame: Seq<u8>,
    end_of_stream: bool,
    body: Seq<Seq<u8>>,
    host: HostView,
    failure: u32,
    blank: u8,
) -> (Seq<Seq<u8>>, HostView, bool) {
    if !valid_utf8(frame) {
        (body, host.reject(failure), false)
    } else if !end_of_stream {
        (body, host, true)
    } else if !reads_as_text(body.flatten()) {
        (body, host.reject(failure), false)
    } else {
        (filled(body, blank), host, false)
    }
}

/// Reads `body` through its reader, a chunk at a time, and says whether the
/// whole of it and each chunk is text.
fn check_text(body: &ByteBuffer) -> (text: bool)
    ensures
        text == reads_as_text(body.content()),
{
    let whole = body.copy();
    if !utf8_accepts(whole.as_slice()) {
        return false;
    }
    let ghost content = body.content();
    let mut reader = body.reader();
    let mut buf: Vec<u8> = vec![0u8; CHUNK_SIZE];
    let ghost mut chunks: int = 0;
    loop
        invariant
            reader.source() == body@,
            content == body@.flatten(),
            buf@.len() == CHUNK_SIZE,
            0 <= chunks,
            reader.consumed() == if CHUNK_SIZE * chunks <= content.len() {
                CHUNK_SIZE * chunks
            } else {
                content.len() as int
            },
            forall|k: int|
                0 <= k < chunks && CHUNK_SIZE * k < content.len() ==> valid_utf8(
                    #[trigger] chunk(content, k),
                ),
            valid_utf8(content),
        ensures
            CHUNK_SIZE * chunks >= content.len(),
        decreases content.len() - reader.consumed(),
    {
        let n: usize = reader.read(buf.as_mut_slice());
        if n == 0 {
            proof {
                assert(reader.remaining().len() == 0);
            }
            break;
        }
        proof {
            assert(CHUNK_SIZE * chunks < content.len());
            assert(buf@.subrange(0, n as int) =~= chunk(content, chunks));
        }
        if !utf8_accepts(slice_subrange(buf.as_slice(), 0, n)) {
            return false;
        }
        proof {
            chunks = chunks + 1;
        }
    }
    true
}

impl BodiesFilter {
    /// A fresh instance for one request.
    pub fn new_instance(&mut self, handle: HostHandle) -> (instance: BodiesFilterInstance)
        ensures
            *final(self) == *old(self),
    {
        BodiesFilterInstance {  }
    }
}

impl BodiesFilterInstance {
    /// A frame that is not text is answered with status 400. Before the end
    /// of the stream a frame is withheld, so that the whole body
    /// accumulates. At the end the accumulated body is read through: if it
    /// is not text, as a whole or in one of its chunks, it is answered with
    /// status 400; else every byte of it is overwritten with `X`, in place.
    pub fn request_body(
        &mut self,
        request_body_frame: &[u8],
        end_of_stream: bool,
        host: &mut HostContext,
    ) -> (status: RequestBodyStatus)
        ensures
            *final(self) == *old(self),
            ({
                let outcome = body_outcome(
                    request_body_frame@,
                    end_of_stream,
                    old(host)@.request_body,
                    old(host)@,
                    BAD_REQUEST,
                    REQUEST_BLANK,
                );
                &&& final(host)@ == (HostView { request_body: outcome.0, ..outcome.1 })
                &&& status == if outcome.2 {
                    RequestBodyStatus::StopIterationAndBuffer
                } else {
                    RequestBodyStatus::Continue
                }
            }),
    {
        if !utf8_accepts(request_body_frame) {
            host.reject(BAD_REQUEST);
            return RequestBodyStatus::Continue;
        }
        if !end_of_stream {
            return RequestBodyStatus::StopIterationAndBuffer;
        }
        if !check_text(host.request_body()) {
            host.reject(BAD_REQUEST);
            return RequestBodyStatus::Continue;
        }
        let entire_body = host.get_request_body_buffer();
        entire_body.fill(REQUEST_BLANK);
        RequestBodyStatus::Continue
    }

    /// A frame that is not text is answered with status 500. Before the end
    /// of the stream a frame is withheld, so that the whole body
    /// accumulates. At the end the accumulated body is read through: if it
    /// is not text, as a whole or in one of its chunks, it is answered with
    /// status 500; else every byte of it is overwritten with `Y`, in place.
    pub fn response_body(
        &mut self,
        response_body_frame: &[u8],
        end_of_stream: bool,
        host: &mut HostContext,
    ) -> (status: ResponseBodyStatus)
        ensures
            *final(self) == *old(self),
            ({
                let outcome = body_outcome(
                    response_body_frame@,
                    end_of_stream,
                    old(host)@.response_body,
                    old(host)@,
                    INTERNAL_SERVER_ERROR,
                    RESPONSE_BLANK,
                );
                &&& final(host)@ == (HostView { response_body: outcome.0, ..outcome.1 })
                &&& status == if outcome.2 {
                    ResponseBodyStatus::StopIterationAndBuffer
                } else {
                    ResponseBodyStatus::Continue
                }
            }),
    {
        if !utf8_accepts(response_body_frame) {
            host.reject(INTERNAL_SERVER_ERROR);
            return ResponseBodyStatus::Continue;
        }
        if !end_of_stream {
            return ResponseBodyStatus::StopIterationAndBuffer;
        }
        if !check_text(host.response_body()) {
            host.reject(INTERNAL_SERVER_ERROR);
            return ResponseBodyStatus::Continue;
        }
        let entire_body = host.get_response_body_buffer();
        entire_body.fill(RESPONSE_BLANK);
        ResponseBodyStatus::Continue
    }
}

} // verus!
