//! A small HTTP-fetch support library: it plans a GET request from a URL and
//! optional per-call settings, turns the wire-level pieces of a response into
//! a flat record, and collapses a chain of wrapped errors into one short,
//! lowercase message.
//!
//! All network and host-boundary work stays outside this crate; the functions
//! here take and return plain values, and their behaviour is stated in their
//! contracts.

pub mod errors;
pub mod headers;
pub mod request;
pub mod response;
pub mod text;
