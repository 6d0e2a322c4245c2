use raio::query_result::{QueryResult, QueryResultError};
use raio::client::{
    auto_commit_finish, auto_commit_result, commit_result, pool_error, run_fields, transaction_records,
    transaction_stream, AuthMethod, AutoCommit, AutoCommitResult, Basic, ClientConfig,
    ConnectionConfig, RecordResult,
};
use raio::dictionary::{get_value, insert_value};
use raio::error::{ClientError, ConnectionError};
use raio::request::{CommitMode, Query};
use raio::response::{Bookmark, Failure, Record, Response, Success};
use raio::session::{expect_success, handshake_outcome, hello_outcome, pull_step, PullStep, StreamResult};
use raio::state::{
    accepts_request, keeps_connection, next_state, outcome_of, Outcome, RequestKind, State,
};
use raio::value::Value;
use raio::version::{default_versions, Version};

fn text(s: &str) -> Value {
    Value::String(String::from(s))
}

fn entry(k: &str, v: Value) -> (String, Value) {
    (String::from(k), v)
}

fn success(entries: Vec<(String, Value)>) -> Success {
    Success { metadata: entries }
}

fn fields_success(names: &[&str]) -> Success {
    success(vec![entry("fields", Value::List(names.iter().map(|n| text(n)).collect()))])
}

fn syntax_failure() -> Failure {
    Failure {
        metadata: vec![
            entry("code", text("Neo.ClientError.Statement.SyntaxError")),
            entry("message", text("Invalid input")),
        ],
    }
}

fn pull_all(responses: Vec<Response>) -> Result<StreamResult, ConnectionError> {
    let mut records = Vec::new();
    for r in responses {
        match pull_step(records, r) {
            PullStep::Continue(rs) => records = rs,
            PullStep::Done(d) => return d,
        }
    }
    panic!("the stream did not end")
}

#[test]
fn hello_success_makes_ready() {
    let (r, state) = hello_outcome(Response::Success(success(vec![])));
    assert!(r.is_ok());
    assert_eq!(state, State::Ready);
    assert_eq!(
        next_state(State::Connected, RequestKind::Hello, Outcome::Success { has_more: false }),
        State::Ready
    );
}

#[test]
fn hello_failure_closes() {
    let (r, state) = hello_outcome(Response::Failure(syntax_failure()));
    assert_eq!(
        r,
        Err(ConnectionError::AuthenticationError(
            String::from("Invalid input"),
            String::from("Neo.ClientError.Statement.SyntaxError")
        ))
    );
    assert_eq!(state, State::Closed);
    let (r, state) = hello_outcome(Response::Ignored);
    assert_eq!(r, Err(ConnectionError::UnexpectedResponse));
    assert_eq!(state, State::Closed);
}

#[test]
fn failure_leads_to_failed_state() {
    let cases = [
        (State::Ready, RequestKind::Run),
        (State::Ready, RequestKind::Begin),
        (State::InTransaction, RequestKind::Run),
        (State::InTransaction, RequestKind::Commit),
        (State::InTransaction, RequestKind::Rollback),
        (State::Streaming, RequestKind::Pull),
        (State::InTransactionStreaming, RequestKind::Discard),
    ];
    for (s, r) in cases {
        assert!(accepts_request(s, r));
        assert_eq!(next_state(s, r, Outcome::Failure), State::Failed);
    }
    let all = [
        RequestKind::Hello,
        RequestKind::Run,
        RequestKind::Begin,
        RequestKind::Commit,
        RequestKind::Rollback,
        RequestKind::Pull,
        RequestKind::Discard,
        RequestKind::Reset,
        RequestKind::Goodbye,
    ];
    for r in all {
        assert_eq!(
            accepts_request(State::Failed, r),
            r == RequestKind::Reset || r == RequestKind::Goodbye
        );
    }
    assert_eq!(
        next_state(State::Failed, RequestKind::Reset, Outcome::Success { has_more: false }),
        State::Ready
    );
    assert_eq!(next_state(State::Ready, RequestKind::Goodbye, Outcome::Ignored), State::Closed);
}

#[test]
fn stream_states() {
    let ok = Outcome::Success { has_more: false };
    let more = Outcome::Success { has_more: true };
    assert_eq!(next_state(State::Ready, RequestKind::Run, ok), State::Streaming);
    assert_eq!(next_state(State::Streaming, RequestKind::Pull, more), State::Streaming);
    assert_eq!(next_state(State::Streaming, RequestKind::Pull, ok), State::Ready);
    assert_eq!(next_state(State::Ready, RequestKind::Begin, ok), State::InTransaction);
    assert_eq!(
        next_state(State::InTransaction, RequestKind::Run, ok),
        State::InTransactionStreaming
    );
    assert_eq!(
        next_state(State::InTransactionStreaming, RequestKind::Pull, ok),
        State::InTransaction
    );
    assert_eq!(
        next_state(State::InTransactionStreaming, RequestKind::Discard, Outcome::Ignored),
        State::InTransaction
    );
    assert_eq!(next_state(State::InTransaction, RequestKind::Commit, ok), State::Ready);
    assert!(!accepts_request(State::Ready, RequestKind::Commit));
    assert!(!accepts_request(State::Closed, RequestKind::Reset));
    assert_eq!(
        outcome_of(&Response::Success(success(vec![entry("has_more", Value::Boolean(true))]))),
        Some(more)
    );
    assert_eq!(outcome_of(&Response::Record(Record { data: vec![] })), None);
    assert!(keeps_connection(State::Ready));
    assert!(!keeps_connection(State::Streaming));
}

#[test]
fn pull_finishes_iff_has_more_is_false() {
    let rec = Response::Record(Record { data: vec![Value::Integer(1)] });
    let end = Response::Success(success(vec![entry("bookmark", text("B"))]));
    match pull_all(vec![rec.clone(), rec.clone(), end]) {
        Ok(StreamResult::Finished(s, records)) => {
            assert_eq!(records.len(), 2);
            assert_eq!(s.bookmark(), Some(String::from("B")));
        }
        other => panic!("expected a finished stream, got {:?}", other),
    }
    let more = Response::Success(success(vec![entry("has_more", Value::Boolean(true))]));
    match pull_all(vec![rec.clone(), more]) {
        Ok(StreamResult::HasMore(records)) => assert_eq!(records.len(), 1),
        other => panic!("expected more to come, got {:?}", other),
    }
    let explicit = Response::Success(success(vec![entry("has_more", Value::Boolean(false))]));
    assert!(matches!(pull_all(vec![explicit]), Ok(StreamResult::Finished(_, _))));
}

#[test]
fn failure_then_ignored_then_reset() {
    let run = expect_success(Response::Failure(syntax_failure()));
    assert_eq!(
        run,
        Err(ConnectionError::FailureResponse(
            String::from("Neo.ClientError.Statement.SyntaxError"),
            String::from("Invalid input")
        ))
    );
    let state = next_state(State::Ready, RequestKind::Run, Outcome::Failure);
    assert_eq!(state, State::Failed);
    assert!(matches!(pull_all(vec![Response::Ignored]), Ok(StreamResult::Ignored)));
    assert!(!accepts_request(state, RequestKind::Pull));
    assert_eq!(
        next_state(state, RequestKind::Reset, Outcome::Success { has_more: false }),
        State::Ready
    );
    assert_eq!(expect_success(Response::Ignored), Err(ConnectionError::UnexpectedResponse));
}

#[test]
fn pull_failure_is_an_error() {
    let r = pull_all(vec![Response::Failure(syntax_failure())]);
    assert_eq!(
        r,
        Err(ConnectionError::FailureResponse(
            String::from("Neo.ClientError.Statement.SyntaxError"),
            String::from("Invalid input")
        ))
    );
    let unknown = Failure { metadata: vec![] };
    assert_eq!(unknown.code(), "<unknown>");
    assert_eq!(unknown.message(), "<unknown>");
}

#[test]
fn handshake_rejection() {
    let proposed = [Version::empty(); 4];
    let (r, state) = handshake_outcome(&[0, 0, 0, 0], &proposed);
    assert_eq!(r, Err(ConnectionError::VersionsNotSupportedByServer(proposed)));
    assert_eq!(state, State::Closed);
    let (r, state) = handshake_outcome(&[0, 0, 1, 4], &default_versions());
    assert_eq!(r, Ok(Version::new(4, 1)));
    assert_eq!(state, State::Connected);
}

#[test]
fn auto_commit_integer_echo() {
    let mut query = Query::new("RETURN $x as x, $y as y, $b as b");
    query.param("x", Value::Integer(1));
    query.param("y", text("Hello"));
    query.param("b", Value::Boolean(true));
    let auto_commit = AutoCommit::new(&query);
    assert_eq!(auto_commit.request().query.parameters.len(), 3);
    let run_success = fields_success(&["x", "y", "b"]);
    let records = vec![
        Response::Record(Record { data: vec![Value::Integer(1), text("Hello"), Value::Boolean(true)] }),
        Response::Success(success(vec![entry("bookmark", text("FB:kcwQ"))])),
    ];
    let pulled = pull_all(records).unwrap();
    let result = auto_commit_result(&run_success, pulled).unwrap();
    assert_eq!(result.records().len(), 1);
    let row = &result.records()[0];
    assert_eq!(row.get_field(&String::from("x")), Some(&Value::Integer(1)));
    assert_eq!(row.get_field(&String::from("y")), Some(&text("Hello")));
    assert_eq!(row.get_field(&String::from("b")), Some(&Value::Boolean(true)));
    assert_eq!(row.get_field(&String::from("z")), None);
    assert!(!result.bookmark().value().is_empty());
}

#[test]
fn auto_commit_errors() {
    let pulled = StreamResult::HasMore(vec![]);
    assert_eq!(
        auto_commit_result(&fields_success(&["x"]), pulled).map(|_| ()),
        Err(ClientError::StreamStillOpen)
    );
    assert_eq!(
        auto_commit_result(&success(vec![]), StreamResult::Ignored).map(|_| ()),
        Err(ClientError::NoFieldInformation)
    );
    let no_bookmark = StreamResult::Finished(success(vec![]), vec![]);
    assert_eq!(
        auto_commit_result(&fields_success(&["x"]), no_bookmark).map(|_| ()),
        Err(ClientError::NoBookmarkInformationInCommit)
    );
    let mismatch = StreamResult::Finished(
        success(vec![entry("bookmark", text("B"))]),
        vec![Record { data: vec![Value::Integer(1), Value::Integer(2)] }],
    );
    assert_eq!(
        auto_commit_result(&fields_success(&["x"]), mismatch).map(|_| ()),
        Err(ClientError::FieldsToRecordMismatch)
    );
    assert_eq!(run_fields(&success(vec![entry("fields", Value::List(vec![Value::Null]))])), Err(ClientError::NoFieldInformation));
}

#[test]
fn bookmark_chaining() {
    let first = AutoCommitResult::new(
        &vec![],
        &success(vec![entry("bookmark", text("B1"))]),
        vec![],
    )
    .unwrap();
    let b1 = first.bookmark().clone();
    let query = Query::new("MATCH (n:T) RETURN count(n)");
    let mut after = AutoCommit::new(&query);
    after.prepare().add_bookmark(b1);
    after.prepare().set_mode(Some(CommitMode::Read));
    assert_eq!(
        after.request().to_value(),
        Value::Structure(
            0x10,
            vec![
                text("MATCH (n:T) RETURN count(n)"),
                Value::Dictionary(vec![]),
                Value::Dictionary(vec![
                    entry("bookmarks", Value::List(vec![text("B1")])),
                    entry("mode", text("r")),
                ]),
            ]
        )
    );
    let count_rows = RecordResult::from_results(
        &vec![String::from("count(n)")],
        vec![Record { data: vec![Value::Integer(1)] }],
    )
    .unwrap();
    match count_rows[0].get_field(&String::from("count(n)")) {
        Some(Value::Integer(n)) => assert!(*n >= 1),
        other => panic!("expected a count, got {:?}", other),
    }
}

#[test]
fn transactional_arithmetic() {
    let run_success = success(vec![
        entry("fields", Value::List(vec![text("x")])),
        entry("qid", Value::Integer(0)),
    ]);
    let (qid, fields) = transaction_stream(&run_success).unwrap();
    assert_eq!(qid, 0);
    assert_eq!(fields, vec![String::from("x")]);
    let pulled = pull_all(vec![
        Response::Record(Record { data: vec![Value::Integer(45)] }),
        Response::Success(success(vec![])),
    ])
    .unwrap();
    let rows = transaction_records(&fields, pulled).unwrap();
    assert_eq!(rows[0].get_field(&String::from("x")), Some(&Value::Integer(45)));
    let commit = commit_result(&success(vec![entry("bookmark", text("B2"))])).unwrap();
    assert_eq!(commit.into_inner(), "B2");
}

#[test]
fn transaction_errors() {
    assert_eq!(
        transaction_stream(&fields_success(&["x"])).map(|_| ()),
        Err(ClientError::NoQidInformation)
    );
    assert_eq!(
        transaction_stream(&success(vec![entry("qid", Value::Integer(3))])).map(|_| ()),
        Err(ClientError::NoFieldInformation)
    );
    let (qid, fields) = transaction_stream(&success(vec![
        entry("qid", Value::Integer(3)),
        entry("fields", Value::List(vec![])),
    ]))
    .unwrap();
    assert_eq!((qid, fields.len()), (3, 0));
    assert_eq!(
        auto_commit_finish(&vec![], StreamResult::HasMore(vec![])).map(|_| ()),
        Err(ClientError::StreamStillOpen)
    );
    assert!(auto_commit_finish(
        &vec![],
        StreamResult::Finished(success(vec![entry("bookmark", text("B"))]), vec![])
    )
    .is_ok());
    assert_eq!(
        transaction_records(&vec![], StreamResult::Ignored).map(|_| ()),
        Err(ClientError::StreamStillOpen)
    );
    assert_eq!(
        commit_result(&success(vec![])).map(|_| ()),
        Err(ClientError::NoBookmarkInformationInCommit)
    );
    assert_eq!(
        Bookmark::from_success(&success(vec![entry("bookmark", Value::Integer(1))])).map(|_| ()),
        Err(ClientError::NoBookmarkInformationInCommit)
    );
    assert_eq!(pool_error(None), ClientError::PoolTimeOut);
    assert_eq!(
        pool_error(Some(ConnectionError::UnexpectedResponse)),
        ClientError::ConnectionError(ConnectionError::UnexpectedResponse)
    );
}

#[test]
fn record_rows() {
    let fields = vec![String::from("a"), String::from("b")];
    let row = RecordResult::new(&fields, Record { data: vec![Value::Integer(1), Value::Null] }).unwrap();
    assert_eq!(row.data, vec![entry("a", Value::Integer(1)), entry("b", Value::Null)]);
    assert_eq!(
        RecordResult::new(&fields, Record { data: vec![] }).map(|_| ()),
        Err(ClientError::FieldsToRecordMismatch)
    );
}

#[test]
fn success_metadata() {
    let s = success(vec![
        entry("qid", Value::Integer(7)),
        entry("has_more", Value::Boolean(true)),
        entry("bookmark", text("bm")),
    ]);
    assert_eq!(s.qid(), Some(7));
    assert!(s.has_more());
    assert!(s.has_bookmark());
    assert_eq!(s.fields(), None);
    assert!(!success(vec![]).has_more());
}

#[test]
fn dictionary_insert_and_get() {
    let mut d = vec![];
    insert_value(&mut d, String::from("k"), Value::Integer(1));
    insert_value(&mut d, String::from("j"), Value::Integer(2));
    insert_value(&mut d, String::from("k"), Value::Integer(3));
    assert_eq!(d, vec![entry("k", Value::Integer(3)), entry("j", Value::Integer(2))]);
    assert_eq!(get_value(&d, &String::from("j")), Some(&Value::Integer(2)));
    assert_eq!(get_value(&d, &String::from("x")), None);
}

#[test]
fn auth_and_config() {
    let auth = Basic::new("neo4j", "mastertest").into_auth_data();
    assert_eq!(auth.scheme, "basic");
    assert_eq!(auth.principal, "neo4j");
    assert_eq!(auth.credentials, "mastertest");
    let config = ClientConfig::default("raio-rs-test", "0.2.0");
    assert_eq!(config.max_connections, 10);
    assert_eq!(config.connection_config, ConnectionConfig::default());
    assert_eq!(config.connection_config.chunk_capacity, 1400);
    assert_eq!(config.connection_config.initial_chunks, 1);
    let config = config.max_connections(3).connection_config(ConnectionConfig::default().chunk_capacity(15));
    assert_eq!(config.max_connections, 3);
    assert_eq!(config.connection_config.chunk_capacity, 15);
}

#[test]
fn query_result_rows() {
    let metadata = vec![
        entry("fields", Value::List(vec![text("name"), text("age")])),
        entry("t_first", Value::Integer(1)),
    ];
    let mut result = QueryResult::begin(metadata).unwrap();
    assert_eq!(result.record_fields, vec![String::from("name"), String::from("age")]);
    assert_eq!(result.meta_fields, vec![entry("t_first", Value::Integer(1))]);
    result.push(vec![text("John"), Value::Integer(42)]).unwrap();
    result.push(vec![text("Jane"), Value::Integer(42)]).unwrap();
    assert_eq!(
        result.push(vec![text("x")]),
        Err(QueryResultError::RecordMissesField(String::from("age")))
    );
    assert_eq!(
        result.push(vec![]),
        Err(QueryResultError::RecordMissesField(String::from("name")))
    );
    assert_eq!(
        result.push(vec![text("x"), Value::Null, Value::Null]),
        Err(QueryResultError::RecordHasTooMuchFields)
    );
    let first = result.get_record(0).unwrap();
    assert_eq!(get_value(first, &String::from("name")), Some(&text("John")));
    assert!(result.get_record(2).is_none());
    result.end(vec![entry("t_last", Value::Integer(3)), entry("t_first", Value::Integer(2))]);
    assert_eq!(result.get_meta(&String::from("t_first")), Ok(&Value::Integer(2)));
    assert_eq!(result.get_meta(&String::from("t_last")), Ok(&Value::Integer(3)));
    assert_eq!(
        result.get_meta(&String::from("nope")),
        Err(QueryResultError::UnknownMetaField(String::from("nope")))
    );
    assert_eq!(
        QueryResult::begin(vec![]).map(|_| ()),
        Err(QueryResultError::NoFieldsInSuccess)
    );
    assert_eq!(
        QueryResult::begin(vec![entry("fields", Value::List(vec![Value::Integer(1)]))]).map(|_| ()),
        Err(QueryResultError::InvalidFieldsStructure)
    );
}
