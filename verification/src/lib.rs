//! Request echo: the pure part of an HTTP service that answers every request
//! with a description of that request, and optionally lets the caller pick
//! the response status through the `status` query parameter.

pub mod fields;
pub mod headers;
pub mod payload;
pub mod query;
pub mod status;
