//! A filter that checks and rewrites headers in both directions.

use vstd::prelude::*;
use vstd::string::StringSliceAdditionalSpecFns;
use vstd::utf8::valid_utf8;
use crate::bytes::{bytes_eq, utf8_accepts};
use crate::headers::{first_value, values_of, with_single, without, HeaderMap};
use crate::host::{HostContext, HostHandle};
use crate::status::{
    RequestHeadersStatus, ResponseHeadersStatus, BAD_REQUEST, INTERNAL_SERVER_ERROR,
};

verus! {

/// The factory of `HeadersFilterInstance`.
#[derive(Clone, Copy, Debug, PartialEq, Eq, Structural)]
pub struct HeadersFilter {}

/// The instance: it holds nothing.
#[derive(Clone, Copy, Debug, PartialEq, Eq, Structural)]
pub struct HeadersFilterInstance {}

/// Every value is well-formed UTF-8.
pub open spec fn all_text(values: Seq<Seq<u8>>) -> bool {
    forall|i: int| 0 <= i < values.len() ==> valid_utf8(#[trigger] values[i])
}

/// The headers pass: `fixed`, if it is there, has the value `expected`, and
/// every value under `listed` is text.
pub open spec fn headers_pass(
    headers: Seq<(Seq<u8>, Seq<u8>)>,
    fixed: Seq<u8>,
    expected: Seq<u8>,
    listed: Seq<u8>,
) -> bool {
    &&& first_value(headers, fixed) matches Some(value) ==> value == expected
    &&& all_text(values_of(headers, listed))
}

/// The request headers as the filter leaves them when they pass.
pub open spec fn rewritten_request_headers(headers: Seq<(Seq<u8>, Seq<u8>)>) -> Seq<
    (Seq<u8>, Seq<u8>),
> {
    with_single(
        with_single(
            without(headers, "multiple-values".spec_bytes()),
            "foo".spec_bytes(),
            "yes".spec_bytes(),
        ),
        "multiple-values-to-be-single".spec_bytes(),
        "single".spec_bytes(),
    )
}

/// The response headers as the filter leaves them when they pass.
pub open spec fn rewritten_response_headers(headers: Seq<(Seq<u8>, Seq<u8>)>) -> Seq<
    (Seq<u8>, Seq<u8>),
> {
    with_single(
        with_single(
            without(headers, "this-is-2".spec_bytes()),
            "this-is".spec_bytes(),
            "response-header".spec_bytes(),
        ),
        "multiple-values-res-to-be-single".spec_bytes(),
        "single".spec_bytes(),
    )
}

/// Whether `fixed`, if it is there, has the value `expected`, and every
/// value under `listed` is text.
fn check_headers(headers: &HeaderMap, fixed: &[u8], expected: &[u8], listed: &[u8]) -> (pass: bool)
    ensures
        pass == headers_pass(headers@, fixed@, expected@, listed@),
{
    match headers.get_first(fixed) {
        Some(value) => {
            if !bytes_eq(value, expected) {
                return false;
            }
        },
        None => {},
    }
    let values = headers.get_all(listed);
    let mut i: usize = 0;
    while i < values.len()
        invariant
            i <= values@.len(),
            values@.len() == values_of(headers@, listed@).len(),
            forall|k: int|
                #![trigger values@[k]]
                0 <= k < values@.len() ==> values@[k]@ == values_of(headers@, listed@)[k],
            forall|k: int| 0 <= k < i ==> valid_utf8(#[trigger] values_of(headers@, listed@)[k]),
        decreases values@.len() - i,
    {
        if !utf8_accepts(values[i]) {
            assert(!valid_utf8(values_of(headers@, listed@)[i as int]));
            return false;
        }
        i += 1;
    }
    true
}

impl HeadersFilter {
    /// A fresh instance for one request.
    pub fn new_instance(&mut self, handle: HostHandle) -> (instance: HeadersFilterInstance)
        ensures
            *final(self) == *old(self),
    {
        HeadersFilterInstance {  }
    }
}

impl HeadersFilterInstance {
    /// Checks that `foo`, if it is there, has the value `value`, and that
    /// every value of `multiple-values` is text. Headers that pass are
    /// rewritten: `multiple-values` is removed, `foo` is set to `yes` and
    /// `multiple-values-to-be-single` to `single`. Headers that do not pass
    /// are left as they are and answered with status 400. Continues either
    /// way.
    pub fn request_headers(
        &mut self,
        request_headers: &mut HeaderMap,
        end_of_stream: bool,
        host: &mut HostContext,
    ) -> (status: RequestHeadersStatus)
        ensures
            status == RequestHeadersStatus::Continue,
            *final(self) == *old(self),
            headers_pass(
                old(request_headers)@,
                "foo".spec_bytes(),
                "value".spec_bytes(),
                "multiple-values".spec_bytes(),
            ) ==> final(request_headers)@ == rewritten_request_headers(old(request_headers)@)
                && final(host)@ == old(host)@,
            !headers_pass(
                old(request_headers)@,
                "foo".spec_bytes(),
                "value".spec_bytes(),
                "multiple-values".spec_bytes(),
            ) ==> final(request_headers)@ == old(request_headers)@ && final(host)@ == old(
                host,
            )@.reject(BAD_REQUEST),
    {
        if !check_headers(
            request_headers,
            "foo".as_bytes(),
            "value".as_bytes(),
            "multiple-values".as_bytes(),
        ) {
            host.reject(BAD_REQUEST);
            return RequestHeadersStatus::Continue;
        }
        request_headers.remove("multiple-values".as_bytes());
        request_headers.set("foo".as_bytes(), "yes".as_bytes());
        request_headers.set("multiple-values-to-be-single".as_bytes(), "single".as_bytes());
        RequestHeadersStatus::Continue
    }

    /// Checks that `this-is`, if it is there, has the value
    /// `response-header`, and that every value of `this-is-2` is text.
    /// Headers that pass are rewritten: `this-is-2` is removed, `this-is` is
    /// set to `response-header` and `multiple-values-res-to-be-single` to
    /// `single`. Headers that do not pass are left as they are and answered
    /// with status 500. Continues either way.
    pub fn response_headers(
        &mut self,
        response_headers: &mut HeaderMap,
        end_of_stream: bool,
        host: &mut HostContext,
    ) -> (status: ResponseHeadersStatus)
        ensures
            status == ResponseHeadersStatus::Continue,
            *final(self) == *old(self),
            headers_pass(
                old(response_headers)@,
                "this-is".spec_bytes(),
                "response-header".spec_bytes(),
                "this-is-2".spec_bytes(),
            ) ==> final(response_headers)@ == rewritten_response_headers(old(response_headers)@)
                && final(host)@ == old(host)@,
            !headers_pass(
                old(response_headers)@,
                "this-is".spec_bytes(),
                "response-header".spec_bytes(),
                "this-is-2".spec_bytes(),
            ) ==> final(response_headers)@ == old(response_headers)@ && final(host)@ == old(
                host,
            )@.reject(INTERNAL_SERVER_ERROR),
    {
        if !check_headers(
            response_headers,
            "this-is".as_bytes(),
            "response-header".as_bytes(),
            "this-is-2".as_bytes(),
        ) {
            host.reject(INTERNAL_SERVER_ERROR);
            return ResponseHeadersStatus::Continue;
        }
        response_headers.remove("this-is-2".as_bytes());
        response_headers.set("this-is".as_bytes(), "response-header".as_bytes());
        response_headers.set("multiple-values-res-to-be-single".as_bytes(), "single".as_bytes());
        ResponseHeadersStatus::Continue
    }
}

} // verus!
