//! A minimal HTTP/1.1 protocol layer: request parsing, route dispatch,
//! and byte-exact response serialization with optional gzip encoding.
//!
//! The crate holds the protocol logic only. Socket accept loops, file
//! reads and writes, and process startup live with the caller, which
//! hands this library plain byte values and takes plain values back.

pub mod bytes_util;
pub mod compression;
pub mod http;
pub mod request;
pub mod response;
