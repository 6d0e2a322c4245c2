//! A client library for the Bolt wire protocol.
//!
//! - `packstream`: the byte form of values, with its decoder and the proof
//!   that decoding gives back what was encoded;
//! - `framing`: chunked messages;
//! - `version`: versions and the handshake;
//! - `state`: the states of a connection and the moves between them;
//! - `request`, `response`: the messages of the dialogue;
//! - `session`, `client`, `query_result`: what responses mean for the request
//!   waiting, and how records become result rows.
//!
//! The transport itself (sockets, the pool, async tasks) stays outside: it
//! performs each exchange and hands the bytes to these functions.

pub mod bytes;
pub mod client;
pub mod dictionary;
pub mod error;
pub mod framing;
pub mod marker;
pub mod packstream;
pub mod query_result;
pub mod request;
pub mod response;
pub mod session;
pub mod state;
pub mod tiny_int;
pub mod value;
pub mod version;
