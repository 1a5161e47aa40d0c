//! Client-side core of an employee directory front end.
//!
//! The remote server owns all business logic; this crate holds the parts the
//! desktop shell must get right on its own: building request URLs, encoding
//! and decoding the JSON wire types, and the envelope policy that collapses
//! transport, status and parse outcomes into a single result.

pub mod chars;
pub mod numerals;
pub mod json;
pub mod wire;
pub mod codec;
pub mod urls;
pub mod roundtrip;
