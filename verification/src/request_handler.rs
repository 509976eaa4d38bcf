//! Handling of one request received on a stream.

pub mod api;
