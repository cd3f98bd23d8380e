//! Fluent extensions for `http::response::Builder`: attaching the URL a
//! response came from, and merging a set of header fields into the headers
//! already on the builder.

pub mod headers;
pub mod response;
