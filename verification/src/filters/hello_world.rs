//! A filter that lets everything pass.

use vstd::prelude::*;
use crate::headers::HeaderMap;
use crate::host::HostHandle;
use crate::status::{
    RequestBodyStatus, RequestHeadersStatus, ResponseBodyStatus, ResponseHeadersStatus,
};

verus! {

/// The factory of `HelloWorldFilterInstance`.
#[derive(Clone, Copy, Debug, PartialEq, Eq, Structural)]
pub struct HelloWorldFilter {}

/// The instance: it holds nothing and changes nothing.
#[derive(Clone, Copy, Debug, PartialEq, Eq, Structural)]
pub struct HelloWorldFilterInstance {}

impl HelloWorldFilter {
    /// A fresh instance for one request.
    pub fn new_instance(&mut self, handle: HostHandle) -> (instance: HelloWorldFilterInstance)
        ensures
            *final(self) == *old(self),
    {
        HelloWorldFilterInstance {  }
    }
}

impl HelloWorldFilterInstance {
    /// Continues.
    pub fn request_headers(&mut self, request_headers: &HeaderMap, end_of_stream: bool) -> (status:
        RequestHeadersStatus)
        ensures
            status == RequestHeadersStatus::Continue,
            *final(self) == *old(self),
    {
        RequestHeadersStatus::Continue
    }

    /// Continues.
    pub fn request_body(&mut self, request_body_frame: &[u8], end_of_stream: bool) -> (status:
        RequestBodyStatus)
        ensures
            status == RequestBodyStatus::Continue,
            *final(self) == *old(self),
    {
        RequestBodyStatus::Continue
    }

    /// Continues.
    pub fn response_headers(&mut self, response_headers: &HeaderMap, end_of_stream: bool) -> (status:
        ResponseHeadersStatus)
        ensures
            status == ResponseHeadersStatus::Continue,
            *final(self) == *old(self),
    {
        ResponseHeadersStatus::Continue
    }

    /// Continues.
    pub fn response_body(&mut self, response_body_frame: &[u8], end_of_stream: bool) -> (status:
        ResponseBodyStatus)
        ensures
            status == ResponseBodyStatus::Continue,
            *final(self) == *old(self),
    {
        ResponseBodyStatus::Continue
    }
}

} // verus!
