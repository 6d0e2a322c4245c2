//! Sessions: authentication data, configuration, result rows, and the
//! assembly of auto-commit and transaction results.

use crate::dictionary::lookup;
use crate::error::{ClientError, ConnectionError};
use crate::request::{CommitPrepare, Query, Run};
use crate::response::{int_of, text_list, texts_of, Bookmark, Record, Success};
use crate::session::StreamResult;
use crate::value::{entry_models, lemma_models_index, model, models, Value, ValueModel};
use vstd::prelude::*;
use vstd::string::StringExecFns;

verus! {

// ---------------------------------------------------------------------------
// Authentication and configuration
// ---------------------------------------------------------------------------

/// The scheme, principal and credentials that a `HELLO` carries.
#[derive(Debug, Clone, PartialEq)]
pub struct AuthData {
    pub scheme: String,
    pub principal: String,
    pub credentials: String,
}

/// A way to authenticate, turned into the data that a `HELLO` carries.
pub trait AuthMethod {
    fn into_auth_data(self) -> AuthData;
}

/// Authentication by user name and password.
#[derive(Debug, Clone, PartialEq)]
pub struct Basic {
    pub user: String,
    pub password: String,
}

impl Basic {
    pub fn new(user: &str, password: &str) -> (r: Basic)
        ensures
            r.user@ == user@,
            r.password@ == password@,
    {
        Basic { user: String::from_str(user), password: String::from_str(password) }
    }

    /// The data of the `basic` scheme: the user is the principal, the password
    /// the credentials.
    pub fn auth_data(self) -> (r: AuthData)
        ensures
            r.scheme@ == "basic"@,
            r.principal == self.user,
            r.credentials == self.password,
    {
        AuthData { scheme: String::from_str("basic"), principal: self.user, credentials: self.password }
    }
}

impl AuthMethod for Basic {
    fn into_auth_data(self) -> AuthData {
        self.auth_data()
    }
}

/// How a connection frames its messages.
#[derive(Debug, Clone, Copy, PartialEq, Eq, Structural)]
pub struct ConnectionConfig {
    pub initial_chunks: usize,
    pub chunk_capacity: u16,
}

impl ConnectionConfig {
    /// One chunk reserved, chunks of 1400 bytes.
    pub fn default() -> (r: ConnectionConfig)
        ensures
            r.initial_chunks == 1,
            r.chunk_capacity == 1400,
    {
        ConnectionConfig { initial_chunks: 1, chunk_capacity: 1400 }
    }

    pub fn initial_chunks(self, n: usize) -> (r: ConnectionConfig)
        ensures
            r == (ConnectionConfig { initial_chunks: n, ..self }),
    {
        ConnectionConfig { initial_chunks: n, ..self }
    }

    /// Sets the chunk capacity, which must not be zero.
    pub fn chunk_capacity(self, n: u16) -> (r: ConnectionConfig)
        requires
            n > 0,
        ensures
            r == (ConnectionConfig { chunk_capacity: n, ..self }),
    {
        ConnectionConfig { chunk_capacity: n, ..self }
    }
}

/// How a client names itself and sizes its pool.
#[derive(Debug, Clone, PartialEq)]
pub struct ClientConfig {
    pub agent_name: String,
    pub agent_version: String,
    pub connection_config: ConnectionConfig,
    pub max_connections: usize,
}

impl ClientConfig {
    /// The given agent, the default connection settings, at most 10 connections.
    pub fn default(agent_name: &str, agent_version: &str) -> (r: ClientConfig)
        ensures
            r.agent_name@ == agent_name@,
            r.agent_version@ == agent_version@,
            r.connection_config == ConnectionConfig::default_spec(),
            r.max_connections == 10,
    {
        ClientConfig {
            agent_name: String::from_str(agent_name),
            agent_version: String::from_str(agent_version),
            connection_config: ConnectionConfig::default(),
            max_connections: 10,
        }
    }

    pub fn max_connections(self, n: usize) -> (r: ClientConfig)
        ensures
            r.max_connections == n,
            r.agent_name == self.agent_name,
            r.agent_version == self.agent_version,
            r.connection_config == self.connection_config,
    {
        ClientConfig { max_connections: n, ..self }
    }

    pub fn connection_config(self, config: ConnectionConfig) -> (r: ClientConfig)
        ensures
            r.connection_config == config,
            r.agent_name == self.agent_name,
            r.agent_version == self.agent_version,
            r.max_connections == self.max_connections,
    {
        ClientConfig { connection_config: config, ..self }
    }
}

impl ConnectionConfig {
    pub open spec fn default_spec() -> ConnectionConfig {
        ConnectionConfig { initial_chunks: 1, chunk_capacity: 1400 }
    }
}

// ---------------------------------------------------------------------------
// Result rows
// ---------------------------------------------------------------------------

/// The row of a record: each field name with its value, in field order.
pub open spec fn row_entries(fields: Seq<Seq<char>>, values: Seq<ValueModel>) -> Seq<
    (Seq<char>, ValueModel),
> {
    Seq::new(fields.len(), |i: int| (fields[i], values[i]))
}

/// A record with the names of its fields.
#[derive(Debug, Clone, PartialEq)]
pub struct RecordResult {
    pub data: Vec<(String, Value)>,
}

impl RecordResult {
    /// Pairs the values of a record with the field names that the `SUCCESS` of
    /// `RUN` declared; a record with another number of values is an error.
    pub fn new(fields: &Vec<String>, record: Record) -> (r: Result<RecordResult, ClientError>)
        ensures
            fields@.len() != record.data@.len() ==> r == Err::<RecordResult, _>(
                ClientError::FieldsToRecordMismatch,
            ),
            fields@.len() == record.data@.len() ==> (r matches Ok(row) && entry_models(row.data@)
                == row_entries(texts_of(fields@), models(record.data@))),
    {
        RecordResult::of_record(fields, &record)
    }

    /// The row of a record, without taking the record.
    fn of_record(fields: &Vec<String>, record: &Record) -> (r: Result<RecordResult, ClientError>)
        ensures
            fields@.len() != record.data@.len() ==> r == Err::<RecordResult, _>(
                ClientError::FieldsToRecordMismatch,
            ),
            fields@.len() == record.data@.len() ==> (r matches Ok(row) && entry_models(row.data@)
                == row_entries(texts_of(fields@), models(record.data@))),
    {
        if fields.len() != record.data.len() {
            return Err(ClientError::FieldsToRecordMismatch);
        }
        proof {
            lemma_models_index(record.data@);
        }
        let ghost values = models(record.data@);
        let mut data: Vec<(String, Value)> = Vec::new();
        let mut i: usize = 0;
        while i < fields.len()
            invariant
                i <= fields@.len(),
                fields@.len() == record.data@.len(),
                values == models(record.data@),
                values.len() == record.data@.len(),
                forall|j: int| 0 <= j < record.data@.len() ==> #[trigger] values[j] == model(record.data@[j]),
                data@.len() == i,
                forall|j: int|
                    0 <= j < i ==> (#[trigger] data@[j]).0@ == fields@[j]@ && model(data@[j].1)
                        == values[j],
            decreases fields.len() - i,
        {
            let v = record.data[i].deep_copy();
            data.push((fields[i].clone(), v));
            i = i + 1;
        }
        proof {
            crate::value::lemma_entry_models_index(data@);
            assert(entry_models(data@) =~= row_entries(texts_of(fields@), values));
        }
        Ok(RecordResult { data })
    }

    /// The rows of all records, or the first mismatch.
    pub fn from_results(fields: &Vec<String>, records: Vec<Record>) -> (r: Result<
        Vec<RecordResult>,
        ClientError,
    >)
        ensures
            (forall|i: int|
                0 <= i < records@.len() ==> #[trigger] records@[i].data@.len() == fields@.len())
                ==> (r matches Ok(rows) && rows@.len() == records@.len() && forall|i: int|
                0 <= i < rows@.len() ==> entry_models(#[trigger] rows@[i].data@) == row_entries(texts_of(fields@),
                    models(records@[i].data@),
                )),
            !(forall|i: int|
                0 <= i < records@.len() ==> #[trigger] records@[i].data@.len() == fields@.len())
                ==> r == Err::<Vec<RecordResult>, _>(ClientError::FieldsToRecordMismatch),
    {
        let mut rows: Vec<RecordResult> = Vec::new();
        let mut i: usize = 0;
        while i < records.len()
            invariant
                i <= records@.len(),
                rows@.len() == i,
                forall|j: int| 0 <= j < i ==> #[trigger] records@[j].data@.len() == fields@.len(),
                forall|j: int|
                    0 <= j < i ==> entry_models(#[trigger] rows@[j].data@) == row_entries(texts_of(fields@),
                        models(records@[j].data@),
                    ),
            decreases records.len() - i,
        {
            match RecordResult::of_record(fields, &records[i]) {
                Ok(row) => {
                    rows.push(row);
                },
                Err(e) => {
                    return Err(e);
                },
            }
            i = i + 1;
        }
        Ok(rows)
    }

    /// The value of the field `key`.
    pub fn get_field(&self, key: &String) -> (r: Option<&Value>)
        ensures
            match r {
                Some(v) => lookup(entry_models(self.data@), key@) == Some(model(*v)),
                None => lookup(entry_models(self.data@), key@) is None,
            },
    {
        crate::dictionary::get_value(&self.data, key)
    }
}

// ---------------------------------------------------------------------------
// Auto-commit
// ---------------------------------------------------------------------------

/// A `RUN` outside a transaction, with its commit preparation; it can be run
/// again.
#[derive(Debug, Clone, PartialEq)]
pub struct AutoCommit {
    pub run: Run,
}

impl AutoCommit {
    /// An auto-commit of the query that prepares nothing.
    pub fn new(query: &Query) -> (r: AutoCommit)
        ensures
            r.run.query.statement == query.statement,
            entry_models(r.run.query.parameters@) == entry_models(query.parameters@),
            r.run.extra.is_unset(),
    {
        AutoCommit { run: Run::new(query) }
    }

    /// The commit preparation, to change.
    pub fn prepare(&mut self) -> (r: &mut CommitPrepare)
        ensures
            *r == old(self).run.extra,
            final(self).run.extra == *final(r),
            final(self).run.query == old(self).run.query,
    {
        self.run.commit_prepare()
    }

    /// The request to send.
    pub fn request(&self) -> (r: &Run)
        ensures
            *r == self.run,
    {
        &self.run
    }
}

/// The result of an auto-commit: the bookmark of its commit and its rows.
#[derive(Debug, Clone, PartialEq)]
pub struct AutoCommitResult {
    pub bookmark: Bookmark,
    pub records: Vec<RecordResult>,
}

impl AutoCommitResult {
    /// The result from the `SUCCESS` that ended the stream and its records.
    pub fn new(fields: &Vec<String>, stream_end: &Success, records: Vec<Record>) -> (r: Result<
        AutoCommitResult,
        ClientError,
    >)
        ensures
            crate::response::text_of(lookup(entry_models(stream_end.metadata@), "bookmark"@))
                is None ==> r == Err::<AutoCommitResult, _>(
                ClientError::NoBookmarkInformationInCommit,
            ),
            r matches Ok(res) ==> crate::response::text_of(
                lookup(entry_models(stream_end.metadata@), "bookmark"@),
            ) == Some(res.bookmark.0@) && res.records@.len() == records@.len() && forall|i: int|
                0 <= i < records@.len() ==> entry_models(#[trigger] res.records@[i].data@)
                    == row_entries(texts_of(fields@), models(records@[i].data@)),
            crate::response::text_of(lookup(entry_models(stream_end.metadata@), "bookmark"@))
                is Some ==> (r is Ok <==> forall|i: int|
                0 <= i < records@.len() ==> #[trigger] records@[i].data@.len() == fields@.len()),
            r is Err && crate::response::text_of(
                lookup(entry_models(stream_end.metadata@), "bookmark"@),
            ) is Some ==> r == Err::<AutoCommitResult, _>(ClientError::FieldsToRecordMismatch),
    {
        let bookmark = Bookmark::from_success(stream_end)?;
        let rows = RecordResult::from_results(fields, records)?;
        Ok(AutoCommitResult { bookmark, records: rows })
    }

    pub fn bookmark(&self) -> (r: &Bookmark)
        ensures
            *r == self.bookmark,
    {
        &self.bookmark
    }

    pub fn records(&self) -> (r: &Vec<RecordResult>)
        ensures
            *r == self.records,
    {
        &self.records
    }

    pub fn into_records(self) -> (r: Vec<RecordResult>)
        ensures
            r == self.records,
    {
        self.records
    }
}

/// The field names of the `SUCCESS` that a `RUN` got, or `NoFieldInformation`.
pub fn run_fields(run_success: &Success) -> (r: Result<Vec<String>, ClientError>)
    ensures
        match r {
            Ok(v) => text_list(lookup(entry_models(run_success.metadata@), "fields"@)) == Some(
                texts_of(v@),
            ),
            Err(e) => text_list(lookup(entry_models(run_success.metadata@), "fields"@)) is None
                && e == ClientError::NoFieldInformation,
        },
{
    match run_success.fields() {
        Some(v) => Ok(v),
        None => Err(ClientError::NoFieldInformation),
    }
}

/// The result of an auto-commit, from the `SUCCESS` of its `RUN` and how the
/// `PULL` of all its records ended: the stream must be finished.
pub fn auto_commit_result(run_success: &Success, pulled: StreamResult) -> (r: Result<
    AutoCommitResult,
    ClientError,
>)
    ensures
        text_list(lookup(entry_models(run_success.metadata@), "fields"@)) is None ==> r == Err::<
            AutoCommitResult,
            _,
        >(ClientError::NoFieldInformation),
        text_list(lookup(entry_models(run_success.metadata@), "fields"@)) is Some && !(
        pulled is Finished) ==> r == Err::<AutoCommitResult, _>(ClientError::StreamStillOpen),
        r is Ok ==> pulled is Finished,
        text_list(lookup(entry_models(run_success.metadata@), "fields"@)) matches Some(fields)
            ==> (pulled matches StreamResult::Finished(end, records) ==> finished_result(
            fields,
            end,
            records@,
            r,
        )),
{
    let fields = run_fields(run_success)?;
    auto_commit_finish(&fields, pulled)
}

/// The result of an auto-commit, from the field names of its `RUN` (taken
/// before any `PULL` is sent) and how the `PULL` of all its records ended: the
/// stream must be finished.
pub fn auto_commit_finish(fields: &Vec<String>, pulled: StreamResult) -> (r: Result<
    AutoCommitResult,
    ClientError,
>)
    ensures
        !(pulled is Finished) ==> r == Err::<AutoCommitResult, _>(ClientError::StreamStillOpen),
        pulled matches StreamResult::Finished(end, records) ==> finished_result(
            texts_of(fields@),
            end,
            records@,
            r,
        ),
{
    match pulled {
        StreamResult::Finished(end, records) => AutoCommitResult::new(fields, &end, records),
        _ => Err(ClientError::StreamStillOpen),
    }
}

/// What an auto-commit whose stream finished with `end` after `records`
/// gives, for the declared `fields`: no bookmark in `end` is an error; a record
/// whose number of values differs from the number of fields is an error; else
/// the bookmark and one row per record.
pub open spec fn finished_result(
    fields: Seq<Seq<char>>,
    end: Success,
    records: Seq<Record>,
    r: Result<AutoCommitResult, ClientError>,
) -> bool {
    let bookmark = crate::response::text_of(lookup(entry_models(end.metadata@), "bookmark"@));
    let fits = forall|i: int|
        0 <= i < records.len() ==> #[trigger] records[i].data@.len() == fields.len();
    match bookmark {
        None => r == Err::<AutoCommitResult, _>(ClientError::NoBookmarkInformationInCommit),
        Some(b) => if fits {
            r matches Ok(res) && res.bookmark.0@ == b && res.records@.len() == records.len()
                && forall|i: int|
                0 <= i < records.len() ==> entry_models(#[trigger] res.records@[i].data@)
                    == row_entries(fields, models(records[i].data@))
        } else {
            r == Err::<AutoCommitResult, _>(ClientError::FieldsToRecordMismatch)
        },
    }
}

// ---------------------------------------------------------------------------
// Transactions
// ---------------------------------------------------------------------------

/// The `qid` and field names of the stream that a `RUN` in a transaction
/// opened: `NoQidInformation` without a `qid`, else `NoFieldInformation`
/// without fields.
pub fn transaction_stream(run_success: &Success) -> (r: Result<(i64, Vec<String>), ClientError>)
    ensures
        int_of(lookup(entry_models(run_success.metadata@), "qid"@)) is None ==> r == Err::<
            (i64, Vec<String>),
            _,
        >(ClientError::NoQidInformation),
        int_of(lookup(entry_models(run_success.metadata@), "qid"@)) is Some && text_list(
            lookup(entry_models(run_success.metadata@), "fields"@),
        ) is None ==> r == Err::<(i64, Vec<String>), _>(ClientError::NoFieldInformation),
        r matches Ok((qid, fields)) ==> int_of(lookup(entry_models(run_success.metadata@), "qid"@))
            == Some(qid) && text_list(lookup(entry_models(run_success.metadata@), "fields"@))
            == Some(texts_of(fields@)),
        int_of(lookup(entry_models(run_success.metadata@), "qid"@)) is Some && text_list(
            lookup(entry_models(run_success.metadata@), "fields"@),
        ) is Some ==> r is Ok,
{
    let qid = match run_success.qid() {
        Some(q) => q,
        None => {
            return Err(ClientError::NoQidInformation);
        },
    };
    let fields = run_fields(run_success)?;
    Ok((qid, fields))
}

/// The rows of a stream in a transaction, once its `PULL` of all records ended:
/// the stream must be finished.
pub fn transaction_records(fields: &Vec<String>, pulled: StreamResult) -> (r: Result<
    Vec<RecordResult>,
    ClientError,
>)
    ensures
        !(pulled is Finished) ==> r == Err::<Vec<RecordResult>, _>(ClientError::StreamStillOpen),
        pulled matches StreamResult::Finished(_, records) ==> ((forall|i: int|
            0 <= i < records@.len() ==> #[trigger] records@[i].data@.len() == fields@.len()) <==> r is Ok),
        pulled matches StreamResult::Finished(_, records) ==> (r is Err ==> r == Err::<
            Vec<RecordResult>,
            _,
        >(ClientError::FieldsToRecordMismatch)),
        pulled matches StreamResult::Finished(_, records) ==> (r matches Ok(rows) ==> rows@.len()
            == records@.len() && forall|i: int|
            0 <= i < rows@.len() ==> entry_models(#[trigger] rows@[i].data@) == row_entries(
                texts_of(fields@),
                models(records@[i].data@),
            )),
{
    match pulled {
        StreamResult::Finished(_, records) => RecordResult::from_results(fields, records),
        _ => Err(ClientError::StreamStillOpen),
    }
}

/// The bookmark that a `COMMIT` got, or `NoBookmarkInformationInCommit`.
pub fn commit_result(commit_success: &Success) -> (r: Result<Bookmark, ClientError>)
    ensures
        match r {
            Ok(b) => crate::response::text_of(
                lookup(entry_models(commit_success.metadata@), "bookmark"@),
            ) == Some(b.0@),
            Err(e) => crate::response::text_of(
                lookup(entry_models(commit_success.metadata@), "bookmark"@),
            ) is None && e == ClientError::NoBookmarkInformationInCommit,
        },
{
    Bookmark::from_success(commit_success)
}

/// What a pool error means for a client: a backend error is the connection's
/// error, anything else a timeout.
pub fn pool_error(backend: Option<ConnectionError>) -> (r: ClientError)
    ensures
        match backend {
            Some(e) => r == ClientError::ConnectionError(e),
            None => r == ClientError::PoolTimeOut,
        },
{
    match backend {
        Some(e) => ClientError::ConnectionError(e),
        None => ClientError::PoolTimeOut,
    }
}

} // verus!
