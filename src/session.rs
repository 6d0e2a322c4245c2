//! The decisions of a connection: what a response means for the request
//! that is waiting.
//!
//! The transport performs each exchange and hands the response over; the
//! functions here say what follows from it.

use crate::dictionary::lookup;
use crate::error::ConnectionError;
use crate::response::{text_or_unknown, Failure, Record, Response, Success};
use crate::state::State;
use crate::value::{entry_models, ValueModel};
use crate::version::Version;
use vstd::prelude::*;

verus! {

// ---------------------------------------------------------------------------
// Handshake and authentication
// ---------------------------------------------------------------------------

/// What the four bytes the server answers to the handshake mean: the agreed
/// version (the connection then waits for `HELLO`), or, for `[0, 0, 0, 0]`,
/// that none of the proposals is supported (the connection is then closed).
pub fn handshake_outcome(reply: &[u8; 4], proposed: &[Version; 4]) -> (r: (
    Result<Version, ConnectionError>,
    State,
))
    ensures
        (reply@[2] == 0 && reply@[3] == 0) ==> r.0 == Err::<Version, _>(
            ConnectionError::VersionsNotSupportedByServer(*proposed),
        ) && r.1 == State::Closed,
        !(reply@[2] == 0 && reply@[3] == 0) ==> r.0 == Ok::<_, ConnectionError>(
            Version { min: reply@[2], maj: reply@[3] },
        ) && r.1 == State::Connected,
{
    let version = Version::decode(reply);
    if version.is_empty() {
        (Err(ConnectionError::VersionsNotSupportedByServer(*proposed)), State::Closed)
    } else {
        (Ok(version), State::Connected)
    }
}

/// The error that a `FAILURE` stands for: its code and message.
pub fn failure_error(f: &Failure) -> (e: ConnectionError)
    ensures
        e matches ConnectionError::FailureResponse(code, message) && code@ == text_or_unknown(
            lookup(entry_models(f.metadata@), "code"@),
        ) && message@ == text_or_unknown(lookup(entry_models(f.metadata@), "message"@)),
{
    ConnectionError::FailureResponse(f.code(), f.message())
}

/// What the response to `HELLO` means, and the state it leaves: a `SUCCESS`
/// makes the connection ready; a `FAILURE` is an authentication error (message,
/// code) and closes it; anything else is unexpected and closes it too.
pub fn hello_outcome(response: Response) -> (r: (Result<Success, ConnectionError>, State))
    ensures
        response is Success ==> r.0 == Ok::<_, ConnectionError>(response->Success_0) && r.1
            == State::Ready,
        response is Failure ==> r.1 == State::Closed && (r.0 matches Err(
            ConnectionError::AuthenticationError(message, code),
        ) && message@ == text_or_unknown(
            lookup(entry_models(response->Failure_0.metadata@), "message"@),
        ) && code@ == text_or_unknown(lookup(entry_models(response->Failure_0.metadata@), "code"@))),
        !(response is Success) && !(response is Failure) ==> r.0 == Err::<Success, _>(
            ConnectionError::UnexpectedResponse,
        ) && r.1 == State::Closed,
{
    match response {
        Response::Success(s) => (Ok(s), State::Ready),
        Response::Failure(f) => (
            Err(ConnectionError::AuthenticationError(f.message(), f.code())),
            State::Closed,
        ),
        _ => (Err(ConnectionError::UnexpectedResponse), State::Closed),
    }
}

/// What a response means where a `SUCCESS` is expected: a `FAILURE` becomes
/// its error, anything else but a `SUCCESS` is unexpected.
pub fn expect_success(response: Response) -> (r: Result<Success, ConnectionError>)
    ensures
        response is Success ==> r == Ok::<_, ConnectionError>(response->Success_0),
        response is Failure ==> (r matches Err(ConnectionError::FailureResponse(code, message))
            && code@ == text_or_unknown(lookup(entry_models(response->Failure_0.metadata@), "code"@))
            && message@ == text_or_unknown(
            lookup(entry_models(response->Failure_0.metadata@), "message"@),
        )),
        !(response is Success) && !(response is Failure) ==> r == Err::<Success, _>(
            ConnectionError::UnexpectedResponse,
        ),
{
    match response {
        Response::Success(s) => Ok(s),
        Response::Failure(f) => Err(failure_error(&f)),
        _ => Err(ConnectionError::UnexpectedResponse),
    }
}

// ---------------------------------------------------------------------------
// The pull loop
// ---------------------------------------------------------------------------

/// How a `PULL` ended: ignored, with more records to come, or with the stream
/// finished by the given `SUCCESS`.
#[derive(Debug, Clone, PartialEq)]
pub enum StreamResult {
    Ignored,
    HasMore(Vec<Record>),
    Finished(Success, Vec<Record>),
}

/// Where the pull loop stands after a response: still reading, with the
/// records so far, or done.
#[derive(Debug, PartialEq)]
pub enum PullStep {
    Continue(Vec<Record>),
    Done(Result<StreamResult, ConnectionError>),
}

/// One turn of the pull loop: a `RECORD` is kept and the loop goes on; a
/// `SUCCESS` ends it, finished unless `has_more` is true; a `FAILURE` ends it
/// with its error; an `IGNORED` ends it as ignored.
pub fn pull_step(records: Vec<Record>, response: Response) -> (r: PullStep)
    ensures
        response is Record ==> (r matches PullStep::Continue(v) && v@ == records@.push(
            response->Record_0,
        )),
        response is Success ==> if lookup(
            entry_models(response->Success_0.metadata@),
            "has_more"@,
        ) == Some(ValueModel::Boolean(true)) {
            r == PullStep::Done(Ok(StreamResult::HasMore(records)))
        } else {
            r == PullStep::Done(Ok(StreamResult::Finished(response->Success_0, records)))
        },
        response is Failure ==> (r matches PullStep::Done(
            Err(ConnectionError::FailureResponse(code, message)),
        ) && code@ == text_or_unknown(lookup(entry_models(response->Failure_0.metadata@), "code"@))
            && message@ == text_or_unknown(
            lookup(entry_models(response->Failure_0.metadata@), "message"@),
        )),
        response is Ignored ==> r == PullStep::Done(Ok(StreamResult::Ignored)),
{
    match response {
        Response::Record(rec) => {
            let mut records = records;
            records.push(rec);
            PullStep::Continue(records)
        },
        Response::Success(s) => if s.has_more() {
            PullStep::Done(Ok(StreamResult::HasMore(records)))
        } else {
            PullStep::Done(Ok(StreamResult::Finished(s, records)))
        },
        Response::Failure(f) => PullStep::Done(Err(failure_error(&f))),
        Response::Ignored => PullStep::Done(Ok(StreamResult::Ignored)),
    }
}

} // verus!
