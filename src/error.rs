//! Errors of the codec and the framing.

use crate::framing::{MessageReadError, MessageWriteError};
use crate::version::Version;
use vstd::prelude::*;

verus! {

/// Why bytes could not be decoded.
#[derive(Debug, Clone, Copy, PartialEq, Eq, Structural)]
pub enum UnpackError {
    /// A byte that is no marker of PackStream.
    MalformedMarker(u8),
    /// The input ended inside a value.
    TruncatedInput,
    /// A declared size is larger than what is left of the input.
    SizeOverflow,
    /// Text bytes that are not UTF-8.
    InvalidText,
    /// A dictionary key that is not text.
    NonTextKey,
    /// A structure whose tag is not the one expected.
    UnexpectedTag(u8),
    /// A structure whose fields do not have the expected number or kinds.
    UnexpectedFields,
    /// A value that is no structure where a structure was expected.
    NotAStructure,
}

/// Why a value could not be encoded.
#[derive(Debug, Clone, Copy, PartialEq, Eq, Structural)]
pub enum PackError {
    /// A text longer than `u32::MAX` bytes, a list or dictionary with more than
    /// `u32::MAX` entries, or a structure with more than `u16::MAX` fields.
    TooLarge,
}

/// What can go wrong on a connection: in the transport, in the codec, or in
/// the dialogue with the server.
#[derive(Debug, Clone, PartialEq)]
pub enum ConnectionError {
    /// The transport failed; the text describes how.
    IOError(String),
    /// A request could not be written.
    PackingError(MessageWriteError),
    /// A response could not be read.
    UnpackingError(MessageReadError),
    /// The server accepted none of the proposed versions.
    VersionsNotSupportedByServer([Version; 4]),
    /// `HELLO` failed, with the server's message and code.
    AuthenticationError(String, String),
    /// A response that does not fit the request.
    UnexpectedResponse,
    /// The server answered `FAILURE`, with its code and message.
    FailureResponse(String, String),
}

/// What can go wrong in a session.
#[derive(Debug, Clone, PartialEq)]
pub enum ClientError {
    /// The transport failed; the text describes how.
    IOError(String),
    /// The connection failed.
    ConnectionError(ConnectionError),
    /// The `SUCCESS` of a `RUN` names no fields.
    NoFieldInformation,
    /// The `SUCCESS` of a `RUN` in a transaction gives no `qid`.
    NoQidInformation,
    /// No connection became free in time.
    PoolTimeOut,
    /// A record whose number of values differs from the number of fields.
    FieldsToRecordMismatch,
    /// The `SUCCESS` that ends a commit holds no bookmark.
    NoBookmarkInformationInCommit,
    /// A stream pulled in full still had more records.
    StreamStillOpen,
}

} // verus!
