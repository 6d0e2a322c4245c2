//! The states of a connection and the moves between them.

use crate::response::Response;
use vstd::prelude::*;

verus! {

/// Where a connection stands in its dialogue with the server.
#[derive(Debug, Clone, Copy, PartialEq, Eq, Structural)]
pub enum State {
    /// No transport yet.
    Disconnected,
    /// The transport is up; not authenticated yet.
    Connected,
    /// Handshake and authentication done; idle.
    Ready,
    /// An auto-commit `RUN` has opened a stream.
    Streaming,
    /// A `BEGIN` has succeeded.
    InTransaction,
    /// A `RUN` inside a transaction has opened a stream.
    InTransactionStreaming,
    /// The server answered `FAILURE`; only `RESET` and `GOODBYE` are accepted.
    Failed,
    /// Closed for good.
    Closed,
}

/// The kinds of requests.
#[derive(Debug, Clone, Copy, PartialEq, Eq, Structural)]
pub enum RequestKind {
    Hello,
    Run,
    Begin,
    Commit,
    Rollback,
    Pull,
    Discard,
    Reset,
    Goodbye,
}

/// The summary response that ends a request (records do not move the state).
#[derive(Debug, Clone, Copy, PartialEq, Eq, Structural)]
pub enum Outcome {
    Success { has_more: bool },
    Failure,
    Ignored,
}

/// Whether a connection in state `s` may send a request of kind `r`.
pub open spec fn accepts(s: State, r: RequestKind) -> bool {
    match r {
        RequestKind::Reset | RequestKind::Goodbye => s != State::Disconnected && s != State::Closed,
        RequestKind::Hello => s == State::Connected,
        RequestKind::Run => s == State::Ready || s == State::InTransaction,
        RequestKind::Begin => s == State::Ready,
        RequestKind::Commit | RequestKind::Rollback => s == State::InTransaction,
        RequestKind::Pull | RequestKind::Discard => s == State::Streaming || s
            == State::InTransactionStreaming,
    }
}

/// The state a stream returns to when it ends.
pub open spec fn base_state(s: State) -> State {
    if s == State::InTransactionStreaming {
        State::InTransaction
    } else {
        State::Ready
    }
}

/// The state after a request of kind `r`, sent in state `s`, ended with `o`.
pub open spec fn transition(s: State, r: RequestKind, o: Outcome) -> State {
    match r {
        RequestKind::Goodbye => State::Closed,
        RequestKind::Hello | RequestKind::Reset => match o {
            Outcome::Success { .. } => State::Ready,
            _ => State::Closed,
        },
        RequestKind::Run => match o {
            Outcome::Success { .. } => if s == State::InTransaction {
                State::InTransactionStreaming
            } else {
                State::Streaming
            },
            _ => State::Failed,
        },
        RequestKind::Begin => match o {
            Outcome::Success { .. } => State::InTransaction,
            _ => State::Failed,
        },
        RequestKind::Commit | RequestKind::Rollback => match o {
            Outcome::Success { .. } => State::Ready,
            _ => State::Failed,
        },
        RequestKind::Pull | RequestKind::Discard => match o {
            Outcome::Success { has_more } => if has_more {
                s
            } else {
                base_state(s)
            },
            Outcome::Failure => State::Failed,
            Outcome::Ignored => base_state(s),
        },
    }
}

/// Whether a connection in state `s` may send a request of kind `r`.
pub fn accepts_request(s: State, r: RequestKind) -> (b: bool)
    ensures
        b == accepts(s, r),
{
    match r {
        RequestKind::Reset | RequestKind::Goodbye => s != State::Disconnected && s != State::Closed,
        RequestKind::Hello => s == State::Connected,
        RequestKind::Run => s == State::Ready || s == State::InTransaction,
        RequestKind::Begin => s == State::Ready,
        RequestKind::Commit | RequestKind::Rollback => s == State::InTransaction,
        RequestKind::Pull | RequestKind::Discard => s == State::Streaming || s
            == State::InTransactionStreaming,
    }
}

/// The state after a request of kind `r`, sent in state `s`, ended with `o`.
pub fn next_state(s: State, r: RequestKind, o: Outcome) -> (n: State)
    requires
        accepts(s, r),
    ensures
        n == transition(s, r, o),
{
    let base = if s == State::InTransactionStreaming {
        State::InTransaction
    } else {
        State::Ready
    };
    match r {
        RequestKind::Goodbye => State::Closed,
        RequestKind::Hello | RequestKind::Reset => match o {
            Outcome::Success { .. } => State::Ready,
            _ => State::Closed,
        },
        RequestKind::Run => match o {
            Outcome::Success { .. } => if s == State::InTransaction {
                State::InTransactionStreaming
            } else {
                State::Streaming
            },
            _ => State::Failed,
        },
        RequestKind::Begin => match o {
            Outcome::Success { .. } => State::InTransaction,
            _ => State::Failed,
        },
        RequestKind::Commit | RequestKind::Rollback => match o {
            Outcome::Success { .. } => State::Ready,
            _ => State::Failed,
        },
        RequestKind::Pull | RequestKind::Discard => match o {
            Outcome::Success { has_more } => if has_more {
                s
            } else {
                base
            },
            Outcome::Failure => State::Failed,
            Outcome::Ignored => base,
        },
    }
}

/// The outcome that a response gives a request, if it ends one.
pub open spec fn outcome(r: Response) -> Option<Outcome> {
    match r {
        Response::Success(s) => Some(
            Outcome::Success {
                has_more: crate::dictionary::lookup(
                    crate::value::entry_models(s.metadata@),
                    "has_more"@,
                ) == Some(crate::value::ValueModel::Boolean(true)),
            },
        ),
        Response::Failure(_) => Some(Outcome::Failure),
        Response::Ignored => Some(Outcome::Ignored),
        Response::Record(_) => None,
    }
}

/// The outcome that a response gives a request; nothing for a record.
pub fn outcome_of(r: &Response) -> (o: Option<Outcome>)
    ensures
        o == outcome(*r),
{
    match r {
        Response::Success(s) => Some(Outcome::Success { has_more: s.has_more() }),
        Response::Failure(_) => Some(Outcome::Failure),
        Response::Ignored => Some(Outcome::Ignored),
        Response::Record(_) => None,
    }
}

/// A successful `HELLO` leaves the connection ready.
pub proof fn lemma_hello_success_ready(has_more: bool)
    ensures
        transition(State::Connected, RequestKind::Hello, Outcome::Success { has_more })
            == State::Ready,
{
}

/// A `FAILURE` to any request but `HELLO`, `RESET` and `GOODBYE` leaves the
/// connection failed, and a failed connection accepts only `RESET` and
/// `GOODBYE`.
pub proof fn lemma_failure_leads_to_failed(s: State, r: RequestKind)
    requires
        accepts(s, r),
        r != RequestKind::Hello,
        r != RequestKind::Reset,
        r != RequestKind::Goodbye,
    ensures
        transition(s, r, Outcome::Failure) == State::Failed,
        forall|q: RequestKind|
            accepts(State::Failed, q) <==> (q == RequestKind::Reset || q == RequestKind::Goodbye),
{
}

/// A successful `RESET` brings any connection that may send one back to ready.
pub proof fn lemma_reset_restores_ready(s: State, has_more: bool)
    requires
        accepts(s, RequestKind::Reset),
    ensures
        transition(s, RequestKind::Reset, Outcome::Success { has_more }) == State::Ready,
{
}

/// A `PULL` or `DISCARD` in a stream stays in the stream while the server has
/// more records, and returns to the state the stream was opened from once it
/// has no more.
pub proof fn lemma_stream_end(s: State, r: RequestKind)
    requires
        s == State::Streaming || s == State::InTransactionStreaming,
        r == RequestKind::Pull || r == RequestKind::Discard,
    ensures
        accepts(s, r),
        transition(s, r, Outcome::Success { has_more: true }) == s,
        s == State::Streaming ==> transition(s, r, Outcome::Success { has_more: false })
            == State::Ready,
        s == State::InTransactionStreaming ==> transition(
            s,
            r,
            Outcome::Success { has_more: false },
        ) == State::InTransaction,
{
}

/// A pool keeps a connection only when it is ready.
pub fn keeps_connection(s: State) -> (r: bool)
    ensures
        r == (s == State::Ready),
{
    s == State::Ready
}

} // verus!
