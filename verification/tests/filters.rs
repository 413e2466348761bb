use filter_engine::filters::bodies::BodiesFilter;
use filter_engine::filters::bodies_replace::BodiesReplace;
use filter_engine::filters::delay::{DelayFilter, RESUME_DELAY_SECONDS};
use filter_engine::filters::dispatch::{new_http_filter, HttpFilter, HttpFilterInstance};
use filter_engine::filters::headers_filter::HeadersFilter;
use filter_engine::filters::hello_world::HelloWorldFilter;
use filter_engine::filters::send_response::SendResponseFilter;
use filter_engine::filters::validate_json::{
    RequestBodyStep, ValidateJsonFilter, ValidateJsonFilterBody,
};
use filter_engine::headers::HeaderMap;
use filter_engine::host::{DisposalGuard, HostContext, HostHandle, ScheduledResume};
use filter_engine::status::{
    Direction, RequestBodyStatus, RequestHeadersStatus, ResponseBodyStatus, ResponseHeadersStatus,
};

const HANDLE: HostHandle = HostHandle { stream_id: 7 };

fn map_of(pairs: &[(&[u8], &[u8])]) -> HeaderMap {
    let mut map = HeaderMap::new();
    for (key, value) in pairs {
        map.append(key, value);
    }
    map
}

fn entries(map: &HeaderMap) -> Vec<(Vec<u8>, Vec<u8>)> {
    let mut all = Vec::new();
    let mut i = 0;
    while let Some((key, value)) = map.entry(i) {
        all.push((key.to_vec(), value.to_vec()));
        i += 1;
    }
    all
}

fn owned(pairs: &[(&[u8], &[u8])]) -> Vec<(Vec<u8>, Vec<u8>)> {
    pairs.iter().map(|(k, v)| (k.to_vec(), v.to_vec())).collect()
}

fn assert_rejected(host: &HostContext, status_code: u32) {
    let response = host.local_response().expect("a response was sent");
    assert_eq!(response.status_code, status_code);
    assert!(response.headers.is_empty());
    assert!(response.body.is_empty());
}

#[test]
fn every_known_config_names_its_filter() {
    assert_eq!(new_http_filter("helloworld").unwrap(), HttpFilter::HelloWorld(HelloWorldFilter {}));
    assert_eq!(
        new_http_filter("delay").unwrap(),
        HttpFilter::Delay(DelayFilter { next_req_no: 1 })
    );
    assert_eq!(new_http_filter("headers").unwrap(), HttpFilter::Headers(HeadersFilter {}));
    assert_eq!(new_http_filter("bodies").unwrap(), HttpFilter::Bodies(BodiesFilter {}));
    assert_eq!(
        new_http_filter("bodies_replace").unwrap(),
        HttpFilter::BodiesReplace(BodiesReplace {})
    );
    assert_eq!(
        new_http_filter("send_response").unwrap(),
        HttpFilter::SendResponse(SendResponseFilter {})
    );
    assert_eq!(
        new_http_filter("validate_json").unwrap(),
        HttpFilter::ValidateJson(ValidateJsonFilter {})
    );
}

#[test]
fn unknown_config_is_refused() {
    for config in ["", "unknown", "HelloWorld", "helloworld ", "delay2", "bodies-replace"] {
        match new_http_filter(config) {
            Ok(filter) => panic!("{:?} made {:?}", config, filter),
            Err(unknown) => assert_eq!(unknown.config, config),
        }
    }
}

#[test]
fn hello_world_continues_in_every_phase() {
    let mut filter = HelloWorldFilter {};
    let mut instance = filter.new_instance(HANDLE);
    let headers = map_of(&[(b"a", b"1")]);
    assert_eq!(instance.request_headers(&headers, false), RequestHeadersStatus::Continue);
    assert_eq!(instance.request_body(b"frame", false), RequestBodyStatus::Continue);
    assert_eq!(instance.response_headers(&headers, true), ResponseHeadersStatus::Continue);
    assert_eq!(instance.response_body(b"frame", true), ResponseBodyStatus::Continue);
}

#[test]
fn headers_filter_rewrites_request_headers() {
    let mut instance = HeadersFilter {}.new_instance(HANDLE);
    let mut headers = map_of(&[
        (b":path", b"/"),
        (b"foo", b"value"),
        (b"multiple-values", b"1234"),
        (b"other", b"kept"),
        (b"multiple-values", b"5678"),
    ]);
    let mut host = HostContext::new();
    let status = instance.request_headers(&mut headers, false, &mut host);
    assert_eq!(status, RequestHeadersStatus::Continue);
    assert!(host.local_response().is_none());
    assert_eq!(
        entries(&headers),
        owned(&[
            (b":path", b"/"),
            (b"foo", b"yes"),
            (b"other", b"kept"),
            (b"multiple-values-to-be-single", b"single"),
        ])
    );
}

#[test]
fn headers_filter_adds_what_is_missing() {
    let mut instance = HeadersFilter {}.new_instance(HANDLE);
    let mut headers = HeaderMap::new();
    let mut host = HostContext::new();
    instance.request_headers(&mut headers, true, &mut host);
    assert!(host.local_response().is_none());
    assert_eq!(
        entries(&headers),
        owned(&[(b"foo", b"yes"), (b"multiple-values-to-be-single", b"single")])
    );
}

#[test]
fn headers_filter_collapses_an_existing_single_header() {
    let mut instance = HeadersFilter {}.new_instance(HANDLE);
    let mut headers = map_of(&[
        (b"multiple-values-to-be-single", b"a"),
        (b"x", b"y"),
        (b"multiple-values-to-be-single", b"b"),
    ]);
    let mut host = HostContext::new();
    instance.request_headers(&mut headers, false, &mut host);
    assert_eq!(
        entries(&headers),
        owned(&[(b"multiple-values-to-be-single", b"single"), (b"x", b"y"), (b"foo", b"yes")])
    );
}

#[test]
fn headers_filter_turns_down_an_unexpected_request_value() {
    let mut instance = HeadersFilter {}.new_instance(HANDLE);
    let before: &[(&[u8], &[u8])] = &[(b"foo", b"unexpected"), (b"multiple-values", b"1")];
    let mut headers = map_of(before);
    let mut host = HostContext::new();
    let status = instance.request_headers(&mut headers, false, &mut host);
    assert_eq!(status, RequestHeadersStatus::Continue);
    assert_rejected(&host, 400);
    assert_eq!(entries(&headers), owned(before));
}

#[test]
fn headers_filter_checks_only_the_first_value_of_foo() {
    let mut instance = HeadersFilter {}.new_instance(HANDLE);
    let mut headers = map_of(&[(b"foo", b"value"), (b"foo", b"other")]);
    let mut host = HostContext::new();
    instance.request_headers(&mut headers, false, &mut host);
    assert!(host.local_response().is_none());
    assert_eq!(
        entries(&headers),
        owned(&[(b"foo", b"yes"), (b"multiple-values-to-be-single", b"single")])
    );
}

#[test]
fn headers_filter_turns_down_a_listed_value_that_is_not_text() {
    let mut instance = HeadersFilter {}.new_instance(HANDLE);
    let before: &[(&[u8], &[u8])] =
        &[(b"multiple-values", b"fine"), (b"multiple-values", &[0xff, 0xfe])];
    let mut headers = map_of(before);
    let mut host = HostContext::new();
    instance.request_headers(&mut headers, false, &mut host);
    assert_rejected(&host, 400);
    assert_eq!(entries(&headers), owned(before));
}

#[test]
fn headers_filter_accepts_listed_values_of_several_bytes_per_character() {
    let mut instance = HeadersFilter {}.new_instance(HANDLE);
    let mut headers = map_of(&[(b"multiple-values", "héllo wörld €".as_bytes())]);
    let mut host = HostContext::new();
    instance.request_headers(&mut headers, false, &mut host);
    assert!(host.local_response().is_none());
    assert!(headers.get_all(b"multiple-values").is_empty());
}

#[test]
fn headers_filter_rewrites_response_headers() {
    let mut instance = HeadersFilter {}.new_instance(HANDLE);
    let mut headers = map_of(&[
        (b":status", b"200"),
        (b"this-is", b"response-header"),
        (b"this-is-2", b"A"),
        (b"this-is-2", b"B"),
    ]);
    let mut host = HostContext::new();
    let status = instance.response_headers(&mut headers, false, &mut host);
    assert_eq!(status, ResponseHeadersStatus::Continue);
    assert!(host.local_response().is_none());
    assert_eq!(
        entries(&headers),
        owned(&[
            (b":status", b"200"),
            (b"this-is", b"response-header"),
            (b"multiple-values-res-to-be-single", b"single"),
        ])
    );
}

#[test]
fn headers_filter_turns_down_an_unexpected_response_value() {
    let mut instance = HeadersFilter {}.new_instance(HANDLE);
    let before: &[(&[u8], &[u8])] = &[(b"this-is", b"something-else")];
    let mut headers = map_of(before);
    let mut host = HostContext::new();
    let status = instance.response_headers(&mut headers, false, &mut host);
    assert_eq!(status, ResponseHeadersStatus::Continue);
    assert_rejected(&host, 500);
    assert_eq!(entries(&headers), owned(before));
}

#[test]
fn headers_filter_turns_down_a_response_value_that_is_not_text() {
    let mut instance = HeadersFilter {}.new_instance(HANDLE);
    let mut headers = map_of(&[(b"this-is-2", &[0xc3, 0x28])]);
    let mut host = HostContext::new();
    instance.response_headers(&mut headers, false, &mut host);
    assert_rejected(&host, 500);
    assert_eq!(headers.len(), 1);
}

#[test]
fn delay_filter_numbers_requests_from_one() {
    let mut filter = DelayFilter::new();
    let first = filter.new_instance(HANDLE);
    let second = filter.new_instance(HostHandle { stream_id: 8 });
    let third = filter.new_instance(HANDLE);
    assert_eq!(first.req_no, 1);
    assert_eq!(second.req_no, 2);
    assert_eq!(third.req_no, 3);
    assert_eq!(filter.next_req_no, 4);
    assert_eq!(first.guard, DisposalGuard { handle: Some(HANDLE) });
    assert_eq!(second.guard.handle, Some(HostHandle { stream_id: 8 }));
}

#[test]
fn delay_filter_counter_wraps() {
    let mut filter = DelayFilter { next_req_no: usize::MAX };
    let last = filter.new_instance(HANDLE);
    assert_eq!(last.req_no, usize::MAX);
    assert_eq!(filter.next_req_no, 0);
}

#[test]
fn delay_pauses_the_phase_of_its_request_number() {
    let mut filter = DelayFilter::new();
    for req_no in 1..=5usize {
        let mut instance = filter.new_instance(HANDLE);
        assert_eq!(instance.req_no, req_no);
        let mut host = HostContext::new();
        host.set_caller(3);
        let request_headers = instance.request_headers(false, &mut host);
        let request_body = instance.request_body(true, &mut host);
        let response_headers = instance.response_headers(false, &mut host);
        let response_body = instance.response_body(true, &mut host);
        assert_eq!(
            request_headers,
            if req_no == 1 {
                RequestHeadersStatus::StopAllIterationAndBuffer
            } else {
                RequestHeadersStatus::Continue
            }
        );
        assert_eq!(
            request_body,
            if req_no == 2 {
                RequestBodyStatus::StopIterationAndBuffer
            } else {
                RequestBodyStatus::Continue
            }
        );
        assert_eq!(
            response_headers,
            if req_no == 3 {
                ResponseHeadersStatus::StopAllIterationAndBuffer
            } else {
                ResponseHeadersStatus::Continue
            }
        );
        assert_eq!(
            response_body,
            if req_no == 4 {
                ResponseBodyStatus::StopIterationAndBuffer
            } else {
                ResponseBodyStatus::Continue
            }
        );
        let scheduled = host.take_scheduled();
        let expected = match req_no {
            1 | 2 => vec![ScheduledResume {
                instance: 3,
                direction: Direction::Request,
                delay_seconds: 1,
            }],
            3 | 4 => vec![ScheduledResume {
                instance: 3,
                direction: Direction::Response,
                delay_seconds: 1,
            }],
            _ => vec![],
        };
        assert_eq!(scheduled, expected);
        assert!(host.take_scheduled().is_empty());
    }
    assert_eq!(RESUME_DELAY_SECONDS, 1);
}

#[test]
fn delay_resume_asks_the_host_while_the_instance_lives() {
    let mut instance = DelayFilter::new().new_instance(HANDLE);
    let mut host = HostContext::new();
    assert!(instance.resume(Direction::Request, &mut host));
    assert!(host.take_resume(Direction::Request));
    assert!(!host.take_resume(Direction::Request));
    assert!(!host.take_resume(Direction::Response));
    assert!(instance.resume(Direction::Response, &mut host));
    assert!(host.take_resume(Direction::Response));
    instance.destroy();
    assert_eq!(instance.guard.handle, None);
    assert!(!instance.resume(Direction::Request, &mut host));
    assert!(!instance.resume(Direction::Response, &mut host));
    assert!(!host.take_resume(Direction::Request));
    assert!(!host.take_resume(Direction::Response));
}

#[test]
fn delay_destroy_twice_is_destroy_once() {
    let mut instance = DelayFilter::new().new_instance(HANDLE);
    instance.destroy();
    instance.destroy();
    assert_eq!(instance.req_no, 1);
    assert!(!instance.guard.is_live());
}

#[test]
fn disposal_guard_holds_until_released() {
    let mut guard = DisposalGuard::new(HANDLE);
    assert!(guard.is_live());
    assert_eq!(guard.handle, Some(HANDLE));
    guard.release();
    assert!(!guard.is_live());
    guard.release();
    assert!(!guard.is_live());
}

#[test]
fn bodies_withholds_frames_before_the_end() {
    let mut instance = BodiesFilter {}.new_instance(HANDLE);
    let mut host = HostContext::new();
    host.get_request_body_buffer().append(b"he");
    let status = instance.request_body(b"he", false, &mut host);
    assert_eq!(status, RequestBodyStatus::StopIterationAndBuffer);
    assert_eq!(host.request_body().copy(), b"he".to_vec());
    assert!(host.local_response().is_none());
}

#[test]
fn bodies_blanks_the_request_body_at_the_end() {
    let mut instance = BodiesFilter {}.new_instance(HANDLE);
    let mut host = HostContext::new();
    host.get_request_body_buffer().append(b"hello ");
    host.get_request_body_buffer().append(b"world");
    let status = instance.request_body(b"world", true, &mut host);
    assert_eq!(status, RequestBodyStatus::Continue);
    assert_eq!(host.request_body().copy(), vec![b'X'; 11]);
    assert_eq!(host.request_body().slices_count(), 2);
    assert!(host.response_body().copy().is_empty());
    assert!(host.local_response().is_none());
}

#[test]
fn bodies_blanks_the_response_body_at_the_end() {
    let mut instance = BodiesFilter {}.new_instance(HANDLE);
    let mut host = HostContext::new();
    host.get_response_body_buffer().append(b"abc");
    assert_eq!(
        instance.response_body(b"ab", false, &mut host),
        ResponseBodyStatus::StopIterationAndBuffer
    );
    assert_eq!(host.response_body().copy(), b"abc".to_vec());
    assert_eq!(instance.response_body(b"c", true, &mut host), ResponseBodyStatus::Continue);
    assert_eq!(host.response_body().copy(), vec![b'Y'; 3]);
    assert!(host.request_body().copy().is_empty());
}

#[test]
fn bodies_accepts_an_empty_body() {
    let mut instance = BodiesFilter {}.new_instance(HANDLE);
    let mut host = HostContext::new();
    assert_eq!(instance.request_body(b"", true, &mut host), RequestBodyStatus::Continue);
    assert!(host.local_response().is_none());
    assert!(host.request_body().copy().is_empty());
}

#[test]
fn bodies_turns_down_a_frame_that_is_not_text() {
    let mut instance = BodiesFilter {}.new_instance(HANDLE);
    let mut host = HostContext::new();
    host.get_request_body_buffer().append(&[0xff]);
    let status = instance.request_body(&[0xff], false, &mut host);
    assert_eq!(status, RequestBodyStatus::Continue);
    assert_rejected(&host, 400);
    assert_eq!(host.request_body().copy(), vec![0xffu8]);
}

#[test]
fn bodies_turns_down_a_response_frame_that_is_not_text() {
    let mut instance = BodiesFilter {}.new_instance(HANDLE);
    let mut host = HostContext::new();
    let status = instance.response_body(&[0x80], true, &mut host);
    assert_eq!(status, ResponseBodyStatus::Continue);
    assert_rejected(&host, 500);
}

#[test]
fn bodies_turns_down_a_body_whose_chunk_splits_a_character() {
    let mut instance = BodiesFilter {}.new_instance(HANDLE);
    let mut host = HostContext::new();
    let body = "aé".as_bytes();
    assert_eq!(body, &[0x61, 0xc3, 0xa9]);
    host.get_request_body_buffer().append(body);
    let status = instance.request_body(body, true, &mut host);
    assert_eq!(status, RequestBodyStatus::Continue);
    assert_rejected(&host, 400);
    assert_eq!(host.request_body().copy(), body.to_vec());
}

#[test]
fn bodies_accepts_a_body_whose_characters_fill_their_chunks() {
    let mut instance = BodiesFilter {}.new_instance(HANDLE);
    let mut host = HostContext::new();
    let body = "éa".as_bytes();
    host.get_request_body_buffer().append(body);
    let status = instance.request_body(body, true, &mut host);
    assert_eq!(status, RequestBodyStatus::Continue);
    assert!(host.local_response().is_none());
    assert_eq!(host.request_body().copy(), vec![b'X'; 3]);
}

#[test]
fn bodies_turns_down_an_accumulated_body_that_is_not_text() {
    let mut instance = BodiesFilter {}.new_instance(HANDLE);
    let mut host = HostContext::new();
    host.get_request_body_buffer().append(&[0xe2, 0x82]);
    host.get_request_body_buffer().append(b"ok");
    let status = instance.request_body(b"ok", true, &mut host);
    assert_eq!(status, RequestBodyStatus::Continue);
    assert_rejected(&host, 400);
    assert_eq!(host.request_body().copy(), vec![0xe2, 0x82, b'o', b'k']);
}

#[test]
fn bodies_replace_appends_and_prepends() {
    let mut instance = BodiesReplace {}.new_instance(HANDLE);
    let mut headers = map_of(&[
        (b"append", b"-tail"),
        (b"content-length", b"4"),
        (b"prepend", b"head-"),
        (b"x", b"y"),
    ]);
    let mut host = HostContext::new();
    let status = instance.request_headers(&mut headers, false, &mut host);
    assert_eq!(status, RequestHeadersStatus::Continue);
    assert!(host.local_response().is_none());
    assert_eq!(
        entries(&headers),
        owned(&[(b"append", b"-tail"), (b"prepend", b"head-"), (b"x", b"y")])
    );
    host.get_request_body_buffer().append(b"bo");
    assert_eq!(instance.request_body(false, &mut host), RequestBodyStatus::StopIterationAndBuffer);
    assert_eq!(host.request_body().copy(), b"bo".to_vec());
    host.get_request_body_buffer().append(b"dy");
    assert_eq!(instance.request_body(true, &mut host), RequestBodyStatus::Continue);
    assert_eq!(host.request_body().copy(), b"head-body-tail".to_vec());
}

#[test]
fn bodies_replace_replaces_after_adding() {
    let mut instance = BodiesReplace {}.new_instance(HANDLE);
    let mut headers =
        map_of(&[(b"append", b"A"), (b"prepend", b"P"), (b"replace", b"replaced")]);
    let mut host = HostContext::new();
    instance.request_headers(&mut headers, false, &mut host);
    host.get_request_body_buffer().append(b"body");
    assert_eq!(instance.request_body(true, &mut host), RequestBodyStatus::Continue);
    assert_eq!(host.request_body().copy(), b"replaced".to_vec());
    assert_eq!(host.request_body().slices_count(), 1);
}

#[test]
fn bodies_replace_without_instructions_leaves_the_body() {
    let mut instance = BodiesReplace {}.new_instance(HANDLE);
    let mut headers = map_of(&[(b"x", b"y")]);
    let mut host = HostContext::new();
    instance.request_headers(&mut headers, false, &mut host);
    host.get_request_body_buffer().append(b"body");
    assert_eq!(instance.request_body(true, &mut host), RequestBodyStatus::Continue);
    assert_eq!(host.request_body().copy(), b"body".to_vec());
    assert_eq!(instance.response_body(true, &mut host), ResponseBodyStatus::Continue);
    assert!(host.response_body().copy().is_empty());
}

#[test]
fn bodies_replace_takes_the_first_value_of_an_instruction() {
    let mut instance = BodiesReplace {}.new_instance(HANDLE);
    let mut headers = map_of(&[(b"append", b"1"), (b"append", b"2")]);
    let mut host = HostContext::new();
    instance.request_headers(&mut headers, false, &mut host);
    host.get_request_body_buffer().append(b"b");
    instance.request_body(true, &mut host);
    assert_eq!(host.request_body().copy(), b"b1".to_vec());
}

#[test]
fn bodies_replace_keeps_directions_apart() {
    let mut instance = BodiesReplace {}.new_instance(HANDLE);
    let mut host = HostContext::new();
    let mut request_headers = map_of(&[(b"append", b"-req")]);
    instance.request_headers(&mut request_headers, false, &mut host);
    let mut response_headers = map_of(&[(b"prepend", b"res-"), (b"content-length", b"1")]);
    let status = instance.response_headers(&mut response_headers, false, &mut host);
    assert_eq!(status, ResponseHeadersStatus::Continue);
    assert_eq!(entries(&response_headers), owned(&[(b"prepend", b"res-")]));
    host.get_request_body_buffer().append(b"in");
    host.get_response_body_buffer().append(b"out");
    assert_eq!(
        instance.response_body(false, &mut host),
        ResponseBodyStatus::StopIterationAndBuffer
    );
    instance.request_body(true, &mut host);
    instance.response_body(true, &mut host);
    assert_eq!(host.request_body().copy(), b"in-req".to_vec());
    assert_eq!(host.response_body().copy(), b"res-out".to_vec());
}

#[test]
fn bodies_replace_turns_down_an_instruction_that_is_not_text() {
    let mut instance = BodiesReplace {}.new_instance(HANDLE);
    let before: &[(&[u8], &[u8])] =
        &[(b"append", b"fine"), (b"prepend", &[0xff]), (b"content-length", b"3")];
    let mut headers = map_of(before);
    let mut host = HostContext::new();
    let status = instance.request_headers(&mut headers, false, &mut host);
    assert_eq!(status, RequestHeadersStatus::Continue);
    assert_rejected(&host, 400);
    assert_eq!(entries(&headers), owned(before));
    host.get_request_body_buffer().append(b"b");
    instance.request_body(true, &mut host);
    assert_eq!(host.request_body().copy(), b"b".to_vec());
}

#[test]
fn bodies_replace_turns_down_a_response_instruction_that_is_not_text() {
    let mut instance = BodiesReplace {}.new_instance(HANDLE);
    let mut headers = map_of(&[(b"replace", &[0xc0, 0x80])]);
    let mut host = HostContext::new();
    instance.response_headers(&mut headers, false, &mut host);
    assert_rejected(&host, 500);
    assert_eq!(headers.len(), 1);
}

#[test]
fn send_response_answers_at_the_request_headers() {
    let mut instance = SendResponseFilter {}.new_instance(HANDLE);
    assert!(!instance.on_response_headers);
    let headers = map_of(&[(b":path", b"/on_request")]);
    let mut host = HostContext::new();
    let status = instance.request_headers(&headers, false, &mut host);
    assert_eq!(status, RequestHeadersStatus::Continue);
    assert!(!instance.on_response_headers);
    let response = host.local_response().expect("a response was sent");
    assert_eq!(response.status_code, 401);
    assert_eq!(response.headers, owned(&[(b"foo", b"bar"), (b"bar", b"baz")]));
    assert_eq!(response.body, b"local response at request headers".to_vec());
}

#[test]
fn send_response_answers_at_the_response_headers() {
    let mut instance = SendResponseFilter {}.new_instance(HANDLE);
    let headers = map_of(&[(b":path", b"/on_response")]);
    let mut host = HostContext::new();
    instance.request_headers(&headers, false, &mut host);
    assert!(instance.on_response_headers);
    assert!(host.local_response().is_none());
    let status = instance.response_headers(&HeaderMap::new(), false, &mut host);
    assert_eq!(status, ResponseHeadersStatus::Continue);
    let response = host.local_response().expect("a response was sent");
    assert_eq!(response.status_code, 500);
    assert_eq!(response.headers, owned(&[(b"dog", b"cat")]));
    assert_eq!(response.body, b"local response at response headers".to_vec());
}

#[test]
fn send_response_lets_other_paths_pass() {
    let mut instance = SendResponseFilter {}.new_instance(HANDLE);
    let mut host = HostContext::new();
    for path in [&b"/"[..], b"/on_request/", b"/ON_REQUEST", b""] {
        instance.request_headers(&map_of(&[(b":path", path)]), false, &mut host);
    }
    instance.request_headers(&HeaderMap::new(), false, &mut host);
    instance.response_headers(&HeaderMap::new(), false, &mut host);
    assert!(!instance.on_response_headers);
    assert!(host.local_response().is_none());
}

#[test]
fn validate_json_waits_for_the_end_and_then_asks_for_decoding() {
    let mut instance = ValidateJsonFilter {}.new_instance(HANDLE);
    assert_eq!(
        instance.request_body(false),
        RequestBodyStep::Done(RequestBodyStatus::StopIterationAndBuffer)
    );
    assert_eq!(instance.request_body(true), RequestBodyStep::Decode);
}

#[test]
fn validate_json_turns_down_a_body_that_did_not_decode() {
    let mut instance = ValidateJsonFilter {}.new_instance(HANDLE);
    let mut host = HostContext::new();
    let status = instance.request_body_decoded(None, &mut host);
    assert_eq!(status, RequestBodyStatus::Continue);
    assert_rejected(&host, 400);
}

#[test]
fn validate_json_lets_a_decoded_body_pass() {
    let mut instance = ValidateJsonFilter {}.new_instance(HANDLE);
    let mut host = HostContext::new();
    let body = ValidateJsonFilterBody { foo: "bar".to_string() };
    let status = instance.request_body_decoded(Some(body), &mut host);
    assert_eq!(status, RequestBodyStatus::Continue);
    assert!(host.local_response().is_none());
}

#[test]
fn a_kind_without_a_phase_continues() {
    let mut headers_instance = new_http_filter("headers").unwrap().new_instance(HANDLE);
    let mut host = HostContext::new();
    host.get_request_body_buffer().append(b"x");
    assert_eq!(
        headers_instance.request_body(b"x", true, &mut host),
        RequestBodyStep::Done(RequestBodyStatus::Continue)
    );
    assert_eq!(
        headers_instance.response_body(b"x", true, &mut host),
        ResponseBodyStatus::Continue
    );
    let mut bodies_instance = new_http_filter("bodies").unwrap().new_instance(HANDLE);
    let before: &[(&[u8], &[u8])] = &[(b"foo", b"unexpected")];
    let mut headers = map_of(before);
    assert_eq!(
        bodies_instance.request_headers(&mut headers, false, &mut host),
        RequestHeadersStatus::Continue
    );
    assert_eq!(
        bodies_instance.response_headers(&mut headers, false, &mut host),
        ResponseHeadersStatus::Continue
    );
    assert_eq!(entries(&headers), owned(before));
    assert_eq!(
        bodies_instance.request_body_decoded(None, &mut host),
        RequestBodyStatus::Continue
    );
    assert!(host.local_response().is_none());
    assert_eq!(host.request_body().copy(), b"x".to_vec());
}

#[test]
fn only_a_living_delay_instance_resumes() {
    let mut host = HostContext::new();
    for config in
        ["helloworld", "headers", "bodies", "bodies_replace", "send_response", "validate_json"]
    {
        let instance = new_http_filter(config).unwrap().new_instance(HANDLE);
        assert!(!instance.resume(Direction::Request, &mut host));
        assert!(!host.take_resume(Direction::Request));
    }
    let mut delay = new_http_filter("delay").unwrap().new_instance(HANDLE);
    assert!(delay.resume(Direction::Response, &mut host));
    assert!(host.take_resume(Direction::Response));
    delay.destroy();
    assert!(!delay.resume(Direction::Response, &mut host));
    assert!(!host.take_resume(Direction::Response));
}

#[test]
fn factory_of_any_kind_makes_its_instance() {
    let mut filter = new_http_filter("delay").unwrap();
    match filter.new_instance(HANDLE) {
        HttpFilterInstance::Delay(instance) => {
            assert_eq!(instance.req_no, 1);
            assert_eq!(instance.guard.handle, Some(HANDLE));
        }
        other => panic!("made {:?}", other),
    }
    assert_eq!(filter, HttpFilter::Delay(DelayFilter { next_req_no: 2 }));
    let mut hello = new_http_filter("helloworld").unwrap();
    assert!(matches!(hello.new_instance(HANDLE), HttpFilterInstance::HelloWorld(_)));
    assert_eq!(hello, HttpFilter::HelloWorld(HelloWorldFilter {}));
    let mut send = new_http_filter("send_response").unwrap();
    match send.new_instance(HANDLE) {
        HttpFilterInstance::SendResponse(instance) => assert!(!instance.on_response_headers),
        other => panic!("made {:?}", other),
    }
}

#[test]
fn send_response_records_exactly_what_was_sent() {
    let mut host = HostContext::new();
    assert!(!host.has_local_response());
    host.send_response(401, &[(b"foo", b"bar")], b"denied");
    assert!(host.has_local_response());
    let response = host.local_response().expect("a response was sent");
    assert_eq!(response.status_code, 401);
    assert_eq!(response.headers, owned(&[(b"foo", b"bar")]));
    assert_eq!(response.body, b"denied".to_vec());
}

#[test]
fn the_first_response_sent_stands() {
    let mut host = HostContext::new();
    host.send_response(401, &[(b"foo", b"bar")], b"denied");
    host.send_response(500, &[], b"later");
    host.reject(400);
    let response = host.local_response().expect("a response was sent");
    assert_eq!(response.status_code, 401);
    assert_eq!(response.headers, owned(&[(b"foo", b"bar")]));
    assert_eq!(response.body, b"denied".to_vec());
}

#[test]
fn asking_to_resume_twice_is_asking_once() {
    let mut host = HostContext::new();
    host.continue_request();
    host.continue_request();
    assert!(host.take_resume(Direction::Request));
    assert!(!host.take_resume(Direction::Request));
    host.continue_response();
    assert!(!host.take_resume(Direction::Request));
    assert!(host.take_resume(Direction::Response));
}

#[test]
fn body_buffers_are_reached_in_place() {
    let mut host = HostContext::new();
    host.get_request_body_buffer().append(b"abc");
    for slice in host.get_request_body_buffer().slices() {
        slice[0] = b'Z';
    }
    assert_eq!(host.request_body().copy(), b"Zbc".to_vec());
    assert!(host.response_body().copy().is_empty());
}

#[test]
fn statuses_say_whether_they_pause() {
    assert!(!RequestHeadersStatus::Continue.is_pause());
    assert!(RequestHeadersStatus::StopIteration.is_pause());
    assert!(RequestHeadersStatus::StopAllIterationAndBuffer.is_pause());
    assert!(!RequestBodyStatus::Continue.is_pause());
    assert!(RequestBodyStatus::StopIterationAndBuffer.is_pause());
    assert!(!ResponseHeadersStatus::Continue.is_pause());
    assert!(ResponseHeadersStatus::StopIteration.is_pause());
    assert!(ResponseHeadersStatus::StopAllIterationAndBuffer.is_pause());
    assert!(!ResponseBodyStatus::Continue.is_pause());
    assert!(ResponseBodyStatus::StopIterationAndBuffer.is_pause());
}

#[test]
fn instances_name_the_headers_they_look_at() {
    let names = |config: &str| {
        let instance = new_http_filter(config).unwrap().new_instance(HANDLE);
        (instance.request_header_names(), instance.response_header_names())
    };
    assert_eq!(
        names("headers"),
        (vec![&b"foo"[..], b"multiple-values"], vec![&b"this-is"[..], b"this-is-2"])
    );
    let instructions = vec![&b"append"[..], b"prepend", b"replace", b"content-length"];
    assert_eq!(names("bodies_replace"), (instructions.clone(), instructions));
    assert_eq!(names("send_response"), (vec![&b":path"[..]], vec![]));
    for config in ["helloworld", "delay", "bodies", "validate_json"] {
        assert_eq!(names(config), (vec![], vec![]));
    }
}

#[test]
fn a_headers_phase_decides_on_the_named_headers_only() {
    let whole = map_of(&[
        (b"accept", b"*/*"),
        (b":path", b"/on_request"),
        (b"foo", b"unexpected"),
        (b"x-other", &[0xff]),
        (b"append", &[0xfe]),
    ]);
    for config in ["headers", "bodies_replace", "send_response", "helloworld"] {
        let mut full = new_http_filter(config).unwrap().new_instance(HANDLE);
        let mut narrow = new_http_filter(config).unwrap().new_instance(HANDLE);
        let mut named = HeaderMap::new();
        for name in narrow.request_header_names() {
            for value in whole.get_all(name) {
                named.append(name, value);
            }
        }
        let mut all = map_of(&entries(&whole).iter().map(|(k, v)| (&k[..], &v[..])).collect::<Vec<_>>());
        let mut full_host = HostContext::new();
        let mut narrow_host = HostContext::new();
        let full_status = full.request_headers(&mut all, false, &mut full_host);
        let narrow_status = narrow.request_headers(&mut named, false, &mut narrow_host);
        assert_eq!(full_status, narrow_status);
        assert_eq!(
            full_host.local_response().map(|r| (r.status_code, r.headers.clone(), r.body.clone())),
            narrow_host.local_response().map(|r| (r.status_code, r.headers.clone(), r.body.clone()))
        );
    }
}
