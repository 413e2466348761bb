//! A filter that answers by itself: at the request headers when the path
//! asks for it, or later at the response headers.

use vstd::prelude::*;
use vstd::string::StringSliceAdditionalSpecFns;
use crate::bytes::bytes_eq;
use crate::headers::{first_value, HeaderMap};
use crate::host::{pairs_view, HostContext, HostHandle, HostView, LocalResponseView};
use crate::status::{RequestHeadersStatus, ResponseHeadersStatus};

verus! {

/// The factory of `SendResponseFilterInstance`.
#[derive(Clone, Copy, Debug, PartialEq, Eq, Structural)]
pub struct SendResponseFilter {}

/// The instance: remembers from the request headers whether to answer at the
/// response headers.
#[derive(Clone, Copy, Debug, PartialEq, Eq, Structural)]
pub struct SendResponseFilterInstance {
    /// Whether the request asked for the answer at the response headers.
    pub on_response_headers: bool,
}

/// The response that is sent at the request headers.
pub open spec fn request_headers_response() -> LocalResponseView {
    LocalResponseView {
        status_code: 401,
        headers: seq![
            ("foo".spec_bytes(), "bar".spec_bytes()),
            ("bar".spec_bytes(), "baz".spec_bytes()),
        ],
        body: "local response at request headers".spec_bytes(),
    }
}

/// The response that is sent at the response headers.
pub open spec fn response_headers_response() -> LocalResponseView {
    LocalResponseView {
        status_code: 500,
        headers: seq![("dog".spec_bytes(), "cat".spec_bytes())],
        body: "local response at response headers".spec_bytes(),
    }
}

impl SendResponseFilter {
    /// A fresh instance for one request.
    pub fn new_instance(&mut self, handle: HostHandle) -> (instance: SendResponseFilterInstance)
        ensures
            !instance.on_response_headers,
            *final(self) == *old(self),
    {
        SendResponseFilterInstance { on_response_headers: false }
    }
}

impl SendResponseFilterInstance {
    /// The instance after the request headers.
    pub open spec fn after_request_headers(self, headers: Seq<(Seq<u8>, Seq<u8>)>) -> Self {
        if first_value(headers, ":path".spec_bytes()) == Some("/on_response".spec_bytes()) {
            SendResponseFilterInstance { on_response_headers: true }
        } else {
            self
        }
    }

    /// The host after the request headers.
    pub open spec fn host_after_request_headers(
        headers: Seq<(Seq<u8>, Seq<u8>)>,
        host: HostView,
    ) -> HostView {
        if first_value(headers, ":path".spec_bytes()) == Some("/on_request".spec_bytes()) {
            host.send_response(request_headers_response())
        } else {
            host
        }
    }

    /// Answers with status 401 when `:path` is `/on_request`; notes for the
    /// response headers when it is `/on_response`. Always continues.
    pub fn request_headers(
        &mut self,
        request_headers: &HeaderMap,
        end_of_stream: bool,
        host: &mut HostContext,
    ) -> (status: RequestHeadersStatus)
        ensures
            status == RequestHeadersStatus::Continue,
            *final(self) == old(self).after_request_headers(request_headers@),
            final(host)@ == Self::host_after_request_headers(request_headers@, old(host)@),
    {
        match request_headers.get_first(":path".as_bytes()) {
            Some(value) => {
                if bytes_eq(value, "/on_request".as_bytes()) {
                    let headers: Vec<(&[u8], &[u8])> = vec![
                        ("foo".as_bytes(), "bar".as_bytes()),
                        ("bar".as_bytes(), "baz".as_bytes()),
                    ];
                    assert(pairs_view(headers@) =~= request_headers_response().headers);
                    host.send_response(
                        401,
                        headers.as_slice(),
                        "local response at request headers".as_bytes(),
                    );
                }
                if bytes_eq(value, "/on_response".as_bytes()) {
                    self.on_response_headers = true;
                }
            },
            None => {},
        }
        RequestHeadersStatus::Continue
    }

    /// The host after the response headers.
    pub open spec fn host_after_response_headers(self, host: HostView) -> HostView {
        if self.on_response_headers {
            host.send_response(response_headers_response())
        } else {
            host
        }
    }

    /// Answers with status 500 when the request asked for it. Always
    /// continues.
    pub fn response_headers(
        &mut self,
        response_headers: &HeaderMap,
        end_of_stream: bool,
        host: &mut HostContext,
    ) -> (status: ResponseHeadersStatus)
        ensures
            status == ResponseHeadersStatus::Continue,
            *final(self) == *old(self),
            final(host)@ == old(self).host_after_response_headers(old(host)@),
    {
        if self.on_response_headers {
            let headers: Vec<(&[u8], &[u8])> = vec![("dog".as_bytes(), "cat".as_bytes())];
            assert(pairs_view(headers@) =~= response_headers_response().headers);
            host.send_response(
                500,
                headers.as_slice(),
                "local response at response headers".as_bytes(),
            );
        }
        ResponseHeadersStatus::Continue
    }
}

} // verus!
