//! The filters: for each kind a factory that makes one instance per
//! request, and the instance with its phases.

pub mod hello_world;
pub mod delay;
pub mod send_response;
pub mod validate_json;
pub mod headers_filter;
pub mod bodies;
pub mod bodies_replace;
pub mod dispatch;
