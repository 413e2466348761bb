//! A streaming HTTP filter engine: header maps and body buffers that filters
//! read and change in place, the per-request filter instances, and the chain
//! driver that sequences them and aggregates their statuses.

pub mod bytes;
pub mod buffer;
pub mod headers;
pub mod status;
pub mod host;
pub mod filters;
pub mod chain;
