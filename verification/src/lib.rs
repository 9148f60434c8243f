//! Request model, text codec, header transcoding and response decoding
//! for an intercept-and-replay tool.
//!
//! A capture agent hands over descriptions of HTTP requests. They are kept
//! in a log, shown as near-HTTP/1.1 text that an operator may edit, parsed
//! back, and replayed; the response body is decompressed by its content
//! encoding and shown as text.

pub mod capture;
pub mod decode;
pub mod dispatch;
pub mod encode;
pub mod fields;
pub mod headers;
pub mod json;
pub mod model;
pub mod named;
pub mod permissive;
pub mod roundtrip;
pub mod strict;
pub mod text;
pub mod urls;
pub mod wire;
