//! The closed set of filters: the factory chosen by a configuration string,
//! and the instance of any kind behind one interface of four phases,
//! `destroy` and `resume`.

use vstd::prelude::*;
use vstd::string::StringSliceAdditionalSpecFns;
use crate::bytes::bytes_eq;
use crate::filters::bodies::{
    body_outcome, BodiesFilter, BodiesFilterInstance, REQUEST_BLANK, RESPONSE_BLANK,
};
use crate::filters::bodies_replace::{
    instructions_acceptable, BodiesReplace, BodiesReplaceInstance, BodiesReplaceView, Instructions,
};
use crate::filters::delay::{DelayFilter, DelayFilterInstance, next_number};
use crate::filters::headers_filter::{
    headers_pass, rewritten_request_headers, rewritten_response_headers, HeadersFilter,
    HeadersFilterInstance,
};
use crate::filters::hello_world::{HelloWorldFilter, HelloWorldFilterInstance};
use crate::filters::send_response::{SendResponseFilter, SendResponseFilterInstance};
use crate::filters::validate_json::{
    RequestBodyStep, ValidateJsonFilter, ValidateJsonFilterBody, ValidateJsonFilterInstance,
};
use crate::headers::{values_of, without, HeaderMap};
use crate::host::{DisposalGuard, HostContext, HostHandle, HostView};
use crate::status::{
    Direction, RequestBodyStatus, RequestHeadersStatus, ResponseBodyStatus, ResponseHeadersStatus,
    BAD_REQUEST, INTERNAL_SERVER_ERROR,
};

verus! {

/// A filter of any kind: the factory of its instances.
#[derive(Clone, Copy, Debug, PartialEq, Eq, Structural)]
pub enum HttpFilter {
    /// Lets everything pass.
    HelloWorld(HelloWorldFilter),
    /// Pauses one phase and resumes it later.
    Delay(DelayFilter),
    /// Checks and rewrites headers.
    Headers(HeadersFilter),
    /// Reads the whole body and blanks it out.
    Bodies(BodiesFilter),
    /// Adds to the body or replaces it.
    BodiesReplace(BodiesReplace),
    /// Answers by itself.
    SendResponse(SendResponseFilter),
    /// Turns down a body that does not decode.
    ValidateJson(ValidateJsonFilter),
}

/// A configuration string that names no filter.
#[derive(Debug)]
pub struct UnknownConfig {
    /// The string.
    pub config: String,
}

/// The filter that a configuration string names, if it names one.
pub open spec fn filter_for(config: Seq<char>) -> Option<HttpFilter> {
    if config == "helloworld"@ {
        Some(HttpFilter::HelloWorld(HelloWorldFilter {  }))
    } else if config == "delay"@ {
        Some(HttpFilter::Delay(DelayFilter { next_req_no: 1 }))
    } else if config == "headers"@ {
        Some(HttpFilter::Headers(HeadersFilter {  }))
    } else if config == "bodies"@ {
        Some(HttpFilter::Bodies(BodiesFilter {  }))
    } else if config == "bodies_replace"@ {
        Some(HttpFilter::BodiesReplace(BodiesReplace {  }))
    } else if config == "send_response"@ {
        Some(HttpFilter::SendResponse(SendResponseFilter {  }))
    } else if config == "validate_json"@ {
        Some(HttpFilter::ValidateJson(ValidateJsonFilter {  }))
    } else {
        None
    }
}

/// Whether two strings hold the same characters.
fn same_text(a: &str, b: &str) -> (same: bool)
    ensures
        same == (a@ == b@),
{
    let same = bytes_eq(a.as_bytes(), b.as_bytes());
    proof {
        vstd::utf8::encode_utf8_decode_utf8(a@);
        vstd::utf8::encode_utf8_decode_utf8(b@);
    }
    same
}

/// The filter that `config` names: `helloworld`, `delay`, `headers`,
/// `bodies`, `bodies_replace`, `send_response` or `validate_json`. Any other
/// string is refused, and no filter is made.
pub fn new_http_filter(config: &str) -> (made: Result<HttpFilter, UnknownConfig>)
    ensures
        match made {
            Ok(filter) => filter_for(config@) == Some(filter),
            Err(unknown) => filter_for(config@).is_none() && unknown.config@ == config@,
        },
{
    if same_text(config, "helloworld") {
        Ok(HttpFilter::HelloWorld(HelloWorldFilter {  }))
    } else if same_text(config, "delay") {
        Ok(HttpFilter::Delay(DelayFilter::new()))
    } else if same_text(config, "headers") {
        Ok(HttpFilter::Headers(HeadersFilter {  }))
    } else if same_text(config, "bodies") {
        Ok(HttpFilter::Bodies(BodiesFilter {  }))
    } else if same_text(config, "bodies_replace") {
        Ok(HttpFilter::BodiesReplace(BodiesReplace {  }))
    } else if same_text(config, "send_response") {
        Ok(HttpFilter::SendResponse(SendResponseFilter {  }))
    } else if same_text(config, "validate_json") {
        Ok(HttpFilter::ValidateJson(ValidateJsonFilter {  }))
    } else {
        Err(UnknownConfig { config: config.to_owned() })
    }
}

/// A filter instance of any kind.
#[derive(Debug)]
pub enum HttpFilterInstance {
    /// Lets everything pass.
    HelloWorld(HelloWorldFilterInstance),
    /// Pauses one phase and resumes it later.
    Delay(DelayFilterInstance),
    /// Checks and rewrites headers.
    Headers(HeadersFilterInstance),
    /// Reads the whole body and blanks it out.
    Bodies(BodiesFilterInstance),
    /// Adds to the body or replaces it.
    BodiesReplace(BodiesReplaceInstance),
    /// Answers by itself.
    SendResponse(SendResponseFilterInstance),
    /// Turns down a body that does not decode.
    ValidateJson(ValidateJsonFilterInstance),
}

/// What an `HttpFilterInstance` holds.
pub enum InstanceView {
    /// Lets everything pass.
    HelloWorld,
    /// Pauses one phase and resumes it later.
    Delay(DelayFilterInstance),
    /// Checks and rewrites headers.
    Headers,
    /// Reads the whole body and blanks it out.
    Bodies,
    /// Adds to the body or replaces it.
    BodiesReplace(BodiesReplaceView),
    /// Answers by itself.
    SendResponse(SendResponseFilterInstance),
    /// Turns down a body that does not decode.
    ValidateJson,
}

impl View for HttpFilterInstance {
    type V = InstanceView;

    open spec fn view(&self) -> InstanceView {
        match self {
            HttpFilterInstance::HelloWorld(_) => InstanceView::HelloWorld,
            HttpFilterInstance::Delay(instance) => InstanceView::Delay(*instance),
            HttpFilterInstance::Headers(_) => InstanceView::Headers,
            HttpFilterInstance::Bodies(_) => InstanceView::Bodies,
            HttpFilterInstance::BodiesReplace(instance) => InstanceView::BodiesReplace(instance@),
            HttpFilterInstance::SendResponse(instance) => InstanceView::SendResponse(*instance),
            HttpFilterInstance::ValidateJson(_) => InstanceView::ValidateJson,
        }
    }
}

/// What a headers phase leaves behind.
pub struct HeadersOutcome<S> {
    /// The instance after the phase.
    pub instance: InstanceView,
    /// The headers after the phase.
    pub headers: Seq<(Seq<u8>, Seq<u8>)>,
    /// The host after the phase.
    pub host: HostView,
    /// The status that the instance returned.
    pub status: S,
}

/// What a body phase leaves behind.
pub struct BodyOutcome<S> {
    /// The instance after the phase.
    pub instance: InstanceView,
    /// The host after the phase.
    pub host: HostView,
    /// What the instance returned.
    pub status: S,
}

impl HttpFilter {
    /// The instance that the filter makes for a request with `handle`.
    pub open spec fn made_instance(self, handle: HostHandle) -> InstanceView {
        match self {
            HttpFilter::HelloWorld(_) => InstanceView::HelloWorld,
            HttpFilter::Delay(filter) => InstanceView::Delay(
                DelayFilterInstance {
                    req_no: filter.next_req_no,
                    guard: DisposalGuard { handle: Some(handle) },
                },
            ),
            HttpFilter::Headers(_) => InstanceView::Headers,
            HttpFilter::Bodies(_) => InstanceView::Bodies,
            HttpFilter::BodiesReplace(_) => InstanceView::BodiesReplace(
                BodiesReplaceView { request: Instructions::none(), response: Instructions::none() },
            ),
            HttpFilter::SendResponse(_) => InstanceView::SendResponse(
                SendResponseFilterInstance { on_response_headers: false },
            ),
            HttpFilter::ValidateJson(_) => InstanceView::ValidateJson,
        }
    }

    /// The filter after it made an instance.
    pub open spec fn after_instance(self) -> HttpFilter {
        match self {
            HttpFilter::Delay(filter) => HttpFilter::Delay(
                DelayFilter { next_req_no: next_number(filter.next_req_no) },
            ),
            _ => self,
        }
    }

    /// A fresh instance for one request, which reaches its host by `handle`.
    pub fn new_instance(&mut self, handle: HostHandle) -> (instance: HttpFilterInstance)
        ensures
            instance@ == old(self).made_instance(handle),
            *final(self) == old(self).after_instance(),
    {
        match self {
            HttpFilter::HelloWorld(filter) => HttpFilterInstance::HelloWorld(
                filter.new_instance(handle),
            ),
            HttpFilter::Delay(filter) => HttpFilterInstance::Delay(filter.new_instance(handle)),
            HttpFilter::Headers(filter) => HttpFilterInstance::Headers(filter.new_instance(handle)),
            HttpFilter::Bodies(filter) => HttpFilterInstance::Bodies(filter.new_instance(handle)),
            HttpFilter::BodiesReplace(filter) => HttpFilterInstance::BodiesReplace(
                filter.new_instance(handle),
            ),
            HttpFilter::SendResponse(filter) => HttpFilterInstance::SendResponse(
                filter.new_instance(handle),
            ),
            HttpFilter::ValidateJson(filter) => HttpFilterInstance::ValidateJson(
                filter.new_instance(handle),
            ),
        }
    }
}

impl InstanceView {
    /// What the request headers phase leaves behind.
    pub open spec fn request_headers(
        self,
        headers: Seq<(Seq<u8>, Seq<u8>)>,
        host: HostView,
    ) -> HeadersOutcome<RequestHeadersStatus> {
        let unchanged = HeadersOutcome {
            instance: self,
            headers,
            host,
            status: RequestHeadersStatus::Continue,
        };
        match self {
            InstanceView::Delay(instance) => HeadersOutcome {
                host: instance.host_after(1, Direction::Request, host),
                status: if instance.req_no == 1 {
                    RequestHeadersStatus::StopAllIterationAndBuffer
                } else {
                    RequestHeadersStatus::Continue
                },
                ..unchanged
            },
            InstanceView::Headers => if headers_pass(
                headers,
                "foo".spec_bytes(),
                "value".spec_bytes(),
                "multiple-values".spec_bytes(),
            ) {
                HeadersOutcome { headers: rewritten_request_headers(headers), ..unchanged }
            } else {
                HeadersOutcome { host: host.reject(BAD_REQUEST), ..unchanged }
            },
            InstanceView::BodiesReplace(instance) => if instructions_acceptable(headers) {
                HeadersOutcome {
                    instance: InstanceView::BodiesReplace(
                        BodiesReplaceView {
                            request: instance.request.after_headers(headers),
                            ..instance
                        },
                    ),
                    headers: without(headers, "content-length".spec_bytes()),
                    ..unchanged
                }
            } else {
                HeadersOutcome { host: host.reject(BAD_REQUEST), ..unchanged }
            },
            InstanceView::SendResponse(instance) => HeadersOutcome {
                instance: InstanceView::SendResponse(instance.after_request_headers(headers)),
                host: SendResponseFilterInstance::host_after_request_headers(headers, host),
                ..unchanged
            },
            _ => unchanged,
        }
    }

    /// What the response headers phase leaves behind.
    pub open spec fn response_headers(
        self,
        headers: Seq<(Seq<u8>, Seq<u8>)>,
        host: HostView,
    ) -> HeadersOutcome<ResponseHeadersStatus> {
        let unchanged = HeadersOutcome {
            instance: self,
            headers,
            host,
            status: ResponseHeadersStatus::Continue,
        };
        match self {
            InstanceView::Delay(instance) => HeadersOutcome {
                host: instance.host_after(3, Direction::Response, host),
                status: if instance.req_no == 3 {
                    ResponseHeadersStatus::StopAllIterationAndBuffer
                } else {
                    ResponseHeadersStatus::Continue
                },
                ..unchanged
            },
            InstanceView::Headers => if headers_pass(
                headers,
                "this-is".spec_bytes(),
                "response-header".spec_bytes(),
                "this-is-2".spec_bytes(),
            ) {
                HeadersOutcome { headers: rewritten_response_headers(headers), ..unchanged }
            } else {
                HeadersOutcome { host: host.reject(INTERNAL_SERVER_ERROR), ..unchanged }
            },
            InstanceView::BodiesReplace(instance) => if instructions_acceptable(headers) {
                HeadersOutcome {
                    instance: InstanceView::BodiesReplace(
                        BodiesReplaceView {
                            response: instance.response.after_headers(headers),
                            ..instance
                        },
                    ),
                    headers: without(headers, "content-length".spec_bytes()),
                    ..unchanged
                }
            } else {
                HeadersOutcome { host: host.reject(INTERNAL_SERVER_ERROR), ..unchanged }
            },
            InstanceView::SendResponse(instance) => HeadersOutcome {
                host: instance.host_after_response_headers(host),
                ..unchanged
            },
            _ => unchanged,
        }
    }

    /// What a frame of the request body leaves behind.
    pub open spec fn request_body(
        self,
        frame: Seq<u8>,
        end_of_stream: bool,
        host: HostView,
    ) -> BodyOutcome<RequestBodyStep> {
        let unchanged = BodyOutcome {
            instance: self,
            host,
            status: RequestBodyStep::Done(RequestBodyStatus::Continue),
        };
        let withheld = RequestBodyStep::Done(RequestBodyStatus::StopIterationAndBuffer);
        match self {
            InstanceView::Delay(instance) => BodyOutcome {
                host: instance.host_after(2, Direction::Request, host),
                status: if instance.req_no == 2 {
                    withheld
                } else {
                    unchanged.status
                },
                ..unchanged
            },
            InstanceView::Bodies => {
                let outcome = body_outcome(
                    frame,
                    end_of_stream,
                    host.request_body,
                    host,
                    BAD_REQUEST,
                    REQUEST_BLANK,
                );
                BodyOutcome {
                    host: HostView { request_body: outcome.0, ..outcome.1 },
                    status: if outcome.2 {
                        withheld
                    } else {
                        unchanged.status
                    },
                    ..unchanged
                }
            },
            InstanceView::BodiesReplace(instance) => if end_of_stream {
                BodyOutcome {
                    host: HostView {
                        request_body: instance.request.carried_out(host.request_body),
                        ..host
                    },
                    ..unchanged
                }
            } else {
                BodyOutcome { status: withheld, ..unchanged }
            },
            InstanceView::ValidateJson => BodyOutcome {
                status: if end_of_stream {
                    RequestBodyStep::Decode
                } else {
                    withheld
                },
                ..unchanged
            },
            _ => unchanged,
        }
    }

    /// What the outcome of decoding the request body leaves behind.
    pub open spec fn request_body_decoded(self, decoded: bool, host: HostView) -> BodyOutcome<
        RequestBodyStatus,
    > {
        BodyOutcome {
            instance: self,
            host: match self {
                InstanceView::ValidateJson => ValidateJsonFilterInstance::host_after_decoding(
                    decoded,
                    host,
                ),
                _ => host,
            },
            status: RequestBodyStatus::Continue,
        }
    }

    /// What a frame of the response body leaves behind.
    pub open spec fn response_body(
        self,
        frame: Seq<u8>,
        end_of_stream: bool,
        host: HostView,
    ) -> BodyOutcome<ResponseBodyStatus> {
        let unchanged = BodyOutcome { instance: self, host, status: ResponseBodyStatus::Continue };
        let withheld = ResponseBodyStatus::StopIterationAndBuffer;
        match self {
            InstanceView::Delay(instance) => BodyOutcome {
                host: instance.host_after(4, Direction::Response, host),
                status: if instance.req_no == 4 {
                    withheld
                } else {
                    unchanged.status
                },
                ..unchanged
            },
            InstanceView::Bodies => {
                let outcome = body_outcome(
                    frame,
                    end_of_stream,
                    host.response_body,
                    host,
                    INTERNAL_SERVER_ERROR,
                    RESPONSE_BLANK,
                );
                BodyOutcome {
                    host: HostView { response_body: outcome.0, ..outcome.1 },
                    status: if outcome.2 {
                        withheld
                    } else {
                        unchanged.status
                    },
                    ..unchanged
                }
            },
            InstanceView::BodiesReplace(instance) => if end_of_stream {
                BodyOutcome {
                    host: HostView {
                        response_body: instance.response.carried_out(host.response_body),
                        ..host
                    },
                    ..unchanged
                }
            } else {
                BodyOutcome { status: withheld, ..unchanged }
            },
            _ => unchanged,
        }
    }

    /// The instance after it was destroyed: whatever handle it held is
    /// given up.
    pub open spec fn destroyed(self) -> InstanceView {
        match self {
            InstanceView::Delay(instance) => InstanceView::Delay(
                DelayFilterInstance { guard: DisposalGuard { handle: None }, ..instance },
            ),
            _ => self,
        }
    }

    /// Whether the instance still holds a handle by which a scheduled resume
    /// reaches the host.
    pub open spec fn resumes(self) -> bool {
        self matches InstanceView::Delay(instance) && instance.guard.handle.is_some()
    }
}

impl InstanceView {
    /// The names of the request headers that the instance reads or removes.
    pub open spec fn request_header_names(self) -> Seq<Seq<u8>> {
        match self {
            InstanceView::Headers => seq!["foo".spec_bytes(), "multiple-values".spec_bytes()],
            InstanceView::BodiesReplace(_) => seq![
                "append".spec_bytes(),
                "prepend".spec_bytes(),
                "replace".spec_bytes(),
                "content-length".spec_bytes(),
            ],
            InstanceView::SendResponse(_) => seq![":path".spec_bytes()],
            _ => Seq::empty(),
        }
    }

    /// The names of the response headers that the instance reads or removes.
    pub open spec fn response_header_names(self) -> Seq<Seq<u8>> {
        match self {
            InstanceView::Headers => seq!["this-is".spec_bytes(), "this-is-2".spec_bytes()],
            InstanceView::BodiesReplace(_) => seq![
                "append".spec_bytes(),
                "prepend".spec_bytes(),
                "replace".spec_bytes(),
                "content-length".spec_bytes(),
            ],
            _ => Seq::empty(),
        }
    }
}

/// Two header maps hold the same values under each of `names`.
pub open spec fn agree_on(
    names: Seq<Seq<u8>>,
    first: Seq<(Seq<u8>, Seq<u8>)>,
    second: Seq<(Seq<u8>, Seq<u8>)>,
) -> bool {
    forall|i: int|
        0 <= i < names.len() ==> values_of(first, #[trigger] names[i]) == values_of(second, names[i])
}

/// What a headers phase decides depends only on the headers that the
/// instance names: on two header maps that hold the same values under those
/// names, the instance returns the same status, does the same to the host,
/// and is the same afterwards.
pub proof fn lemma_headers_phases_read_named_headers(
    instance: InstanceView,
    first: Seq<(Seq<u8>, Seq<u8>)>,
    second: Seq<(Seq<u8>, Seq<u8>)>,
    host: HostView,
)
    ensures
        agree_on(instance.request_header_names(), first, second) ==> {
            &&& instance.request_headers(first, host).status == instance.request_headers(
                second,
                host,
            ).status
            &&& instance.request_headers(first, host).host == instance.request_headers(
                second,
                host,
            ).host
            &&& instance.request_headers(first, host).instance == instance.request_headers(
                second,
                host,
            ).instance
        },
        agree_on(instance.response_header_names(), first, second) ==> {
            &&& instance.response_headers(first, host).status == instance.response_headers(
                second,
                host,
            ).status
            &&& instance.response_headers(first, host).host == instance.response_headers(
                second,
                host,
            ).host
            &&& instance.response_headers(first, host).instance == instance.response_headers(
                second,
                host,
            ).instance
        },
{
    let request = instance.request_header_names();
    if agree_on(request, first, second) {
        if request.len() > 0 {
            assert(values_of(first, request[0]) == values_of(second, request[0]));
        }
        if request.len() > 1 {
            assert(values_of(first, request[1]) == values_of(second, request[1]));
        }
        if request.len() > 2 {
            assert(values_of(first, request[2]) == values_of(second, request[2]));
        }
    }
    let response = instance.response_header_names();
    if agree_on(response, first, second) {
        if response.len() > 0 {
            assert(values_of(first, response[0]) == values_of(second, response[0]));
        }
        if response.len() > 1 {
            assert(values_of(first, response[1]) == values_of(second, response[1]));
        }
        if response.len() > 2 {
            assert(values_of(first, response[2]) == values_of(second, response[2]));
        }
    }
}

impl HttpFilterInstance {
    /// The request headers phase: the instance may read and change the
    /// headers in place and reach the host, and says how to go on. A kind
    /// without this phase continues and changes nothing.
    pub fn request_headers(
        &mut self,
        request_headers: &mut HeaderMap,
        end_of_stream: bool,
        host: &mut HostContext,
    ) -> (status: RequestHeadersStatus)
        ensures
            (HeadersOutcome {
                instance: final(self)@,
                headers: final(request_headers)@,
                host: final(host)@,
                status,
            }) == old(self)@.request_headers(old(request_headers)@, old(host)@),
    {
        match self {
            HttpFilterInstance::HelloWorld(instance) => instance.request_headers(
                request_headers,
                end_of_stream,
            ),
            HttpFilterInstance::Delay(instance) => instance.request_headers(end_of_stream, host),
            HttpFilterInstance::Headers(instance) => instance.request_headers(
                request_headers,
                end_of_stream,
                host,
            ),
            HttpFilterInstance::BodiesReplace(instance) => instance.request_headers(
                request_headers,
                end_of_stream,
                host,
            ),
            HttpFilterInstance::SendResponse(instance) => instance.request_headers(
                request_headers,
                end_of_stream,
                host,
            ),
            _ => RequestHeadersStatus::Continue,
        }
    }

    /// The response headers phase: the instance may read and change the
    /// headers in place and reach the host, and says how to go on. A kind
    /// without this phase continues and changes nothing.
    pub fn response_headers(
        &mut self,
        response_headers: &mut HeaderMap,
        end_of_stream: bool,
        host: &mut HostContext,
    ) -> (status: ResponseHeadersStatus)
        ensures
            (HeadersOutcome {
                instance: final(self)@,
                headers: final(response_headers)@,
                host: final(host)@,
                status,
            }) == old(self)@.response_headers(old(response_headers)@, old(host)@),
    {
        match self {
            HttpFilterInstance::HelloWorld(instance) => instance.response_headers(
                response_headers,
                end_of_stream,
            ),
            HttpFilterInstance::Delay(instance) => instance.response_headers(end_of_stream, host),
            HttpFilterInstance::Headers(instance) => instance.response_headers(
                response_headers,
                end_of_stream,
                host,
            ),
            HttpFilterInstance::BodiesReplace(instance) => instance.response_headers(
                response_headers,
                end_of_stream,
                host,
            ),
            HttpFilterInstance::SendResponse(instance) => instance.response_headers(
                response_headers,
                end_of_stream,
                host,
            ),
            _ => ResponseHeadersStatus::Continue,
        }
    }

    /// The request body phase, for one frame: the instance may reach the
    /// accumulated body through the host, and says how to go on, or that it
    /// needs the accumulated body decoded first. A kind without this phase
    /// continues and changes nothing.
    pub fn request_body(
        &mut self,
        request_body_frame: &[u8],
        end_of_stream: bool,
        host: &mut HostContext,
    ) -> (step: RequestBodyStep)
        ensures
            (BodyOutcome { instance: final(self)@, host: final(host)@, status: step }) == old(
                self,
            )@.request_body(request_body_frame@, end_of_stream, old(host)@),
    {
        match self {
            HttpFilterInstance::HelloWorld(instance) => RequestBodyStep::Done(
                instance.request_body(request_body_frame, end_of_stream),
            ),
            HttpFilterInstance::Delay(instance) => RequestBodyStep::Done(
                instance.request_body(end_of_stream, host),
            ),
            HttpFilterInstance::Bodies(instance) => RequestBodyStep::Done(
                instance.request_body(request_body_frame, end_of_stream, host),
            ),
            HttpFilterInstance::BodiesReplace(instance) => RequestBodyStep::Done(
                instance.request_body(end_of_stream, host),
            ),
            HttpFilterInstance::ValidateJson(instance) => instance.request_body(end_of_stream),
            _ => RequestBodyStep::Done(RequestBodyStatus::Continue),
        }
    }

    /// Goes on after the accumulated request body was decoded for an
    /// instance that asked for it: `decoded` is the document, or `None` when
    /// the body did not decode. A kind that never asks continues and changes
    /// nothing.
    pub fn request_body_decoded(
        &mut self,
        decoded: Option<ValidateJsonFilterBody>,
        host: &mut HostContext,
    ) -> (status: RequestBodyStatus)
        ensures
            (BodyOutcome { instance: final(self)@, host: final(host)@, status }) == old(
                self,
            )@.request_body_decoded(decoded.is_some(), old(host)@),
    {
        match self {
            HttpFilterInstance::ValidateJson(instance) => instance.request_body_decoded(
                decoded,
                host,
            ),
            _ => RequestBodyStatus::Continue,
        }
    }

    /// The response body phase, for one frame: the instance may reach the
    /// accumulated body through the host, and says how to go on. A kind
    /// without this phase continues and changes nothing.
    pub fn response_body(
        &mut self,
        response_body_frame: &[u8],
        end_of_stream: bool,
        host: &mut HostContext,
    ) -> (status: ResponseBodyStatus)
        ensures
            (BodyOutcome { instance: final(self)@, host: final(host)@, status }) == old(
                self,
            )@.response_body(response_body_frame@, end_of_stream, old(host)@),
    {
        match self {
            HttpFilterInstance::HelloWorld(instance) => instance.response_body(
                response_body_frame,
                end_of_stream,
            ),
            HttpFilterInstance::Delay(instance) => instance.response_body(end_of_stream, host),
            HttpFilterInstance::Bodies(instance) => instance.response_body(
                response_body_frame,
                end_of_stream,
                host,
            ),
            HttpFilterInstance::BodiesReplace(instance) => instance.response_body(
                end_of_stream,
                host,
            ),
            _ => ResponseBodyStatus::Continue,
        }
    }

    /// The names of the request headers that the instance reads or removes
    /// in its request headers phase. A host that keeps headers by name has
    /// to hand over the entries under these names, and no others.
    pub fn request_header_names(&self) -> (names: Vec<&'static [u8]>)
        ensures
            names@.len() == self@.request_header_names().len(),
            forall|i: int|
                #![trigger names@[i]]
                0 <= i < names@.len() ==> names@[i]@ == self@.request_header_names()[i],
    {
        match self {
            HttpFilterInstance::Headers(_) => vec!["foo".as_bytes(), "multiple-values".as_bytes()],
            HttpFilterInstance::BodiesReplace(_) => vec![
                "append".as_bytes(),
                "prepend".as_bytes(),
                "replace".as_bytes(),
                "content-length".as_bytes(),
            ],
            HttpFilterInstance::SendResponse(_) => vec![":path".as_bytes()],
            _ => Vec::new(),
        }
    }

    /// The names of the response headers that the instance reads or removes
    /// in its response headers phase. A host that keeps headers by name has
    /// to hand over the entries under these names, and no others.
    pub fn response_header_names(&self) -> (names: Vec<&'static [u8]>)
        ensures
            names@.len() == self@.response_header_names().len(),
            forall|i: int|
                #![trigger names@[i]]
                0 <= i < names@.len() ==> names@[i]@ == self@.response_header_names()[i],
    {
        match self {
            HttpFilterInstance::Headers(_) => vec!["this-is".as_bytes(), "this-is-2".as_bytes()],
            HttpFilterInstance::BodiesReplace(_) => vec![
                "append".as_bytes(),
                "prepend".as_bytes(),
                "replace".as_bytes(),
                "content-length".as_bytes(),
            ],
            _ => Vec::new(),
        }
    }

    /// Ends the instance's part in the exchange: whatever handle it holds
    /// is given up. Destroying twice is destroying once.
    pub fn destroy(&mut self)
        ensures
            final(self)@ == old(self)@.destroyed(),
    {
        match self {
            HttpFilterInstance::Delay(instance) => instance.destroy(),
            _ => {},
        }
    }

    /// What a scheduled resume does when it arrives: it asks the host to
    /// resume `direction` if the instance still holds its handle, and else
    /// does nothing. Returns whether it asked.
    pub fn resume(&self, direction: Direction, host: &mut HostContext) -> (asked: bool)
        ensures
            asked == self@.resumes(),
            final(host)@ == if self@.resumes() {
                old(host)@.resume(direction)
            } else {
                old(host)@
            },
    {
        match self {
            HttpFilterInstance::Delay(instance) => instance.resume(direction, host),
            _ => false,
        }
    }
}

} // verus!
