//! Verified core of a request bridge: it turns a UI-supplied description of an
//! HTTP request into a checked request plan, and an HTTP response (or a failure)
//! into one uniform result envelope.

pub mod error;
pub mod headers;
pub mod envelope;
pub mod bridge;
