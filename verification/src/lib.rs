//! The core of a small static file server: reading an HTTP/1.1 request and
//! writing the response to it.
//!
//! A request is read line by line (`request`): the first line gives the
//! method, the request target and the protocol version, and the lines after it,
//! up to the first empty one, are the headers. The response (`response`) is a
//! status line, a `Content-length` header and the body, as the exact bytes that
//! go to the client. What lies between the two is decided in
//! `connection_handler`.
//!
//! The library does no input or output. Whoever owns the connection pulls the
//! lines, looks the resource up and writes the bytes; every decision in
//! between is made here, and each function says in its contract what it
//! returns.

pub mod connection_handler;
pub mod encoding;
pub mod error;
pub mod method_type;
pub mod request;
pub mod response;
pub mod tokens;
