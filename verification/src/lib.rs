//! A small verified library for watching a chain's gas price.
//!
//! The library covers the logic of one request/response cycle: building the
//! JSON-RPC request body, interpreting the response body, decoding the
//! hexadecimal quantity it carries, converting that quantity to a display
//! string, and classifying it into a price tier. The network transport and
//! the command line live outside the library.

pub mod classify;
pub mod display;
pub mod hex;
pub mod json;
pub mod rpc;
