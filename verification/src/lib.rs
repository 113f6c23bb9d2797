//! A minimal JSON-RPC 2.0 client core for talking to a node over HTTP with
//! bearer-token authentication.
//!
//! This crate holds the protocol logic: building request envelopes,
//! decoding response envelopes (distinguishing a result from a protocol-level
//! error), hex coding of mining-target fields, and the retry decisions that
//! the blocking transport loop follows. The transport itself (HTTP, the
//! one-second backoff sleep) lives outside, in the program around this
//! library: it sends the bytes this library builds and hands back the body
//! text for this library to interpret.

pub mod client;
pub mod hex;
pub mod json;
pub mod parse;
pub mod protocol;
