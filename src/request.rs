//! The requests of a client, as the structures that go on the wire.

use crate::dictionary::{dict_insert, insert_value};
use crate::response::Bookmark;
use crate::value::{
    copy_entries, entry_models, lemma_entry_models_push, lemma_models_push, model, models, Value,
    ValueModel,
};
use vstd::prelude::*;
use vstd::string::StringExecFns;

verus! {

/// A structure with a tag and fields.
pub open spec fn structure(tag: u8, fields: Seq<ValueModel>) -> ValueModel {
    ValueModel::Structure(tag, fields)
}

/// A text value holding a string.
fn text(s: &str) -> (r: Value)
    ensures
        model(r) == ValueModel::Text(s@),
{
    Value::String(String::from_str(s))
}

/// A query: a statement and its parameters.
#[derive(Debug, Clone, PartialEq)]
pub struct Query {
    pub statement: String,
    pub parameters: Vec<(String, Value)>,
}

impl Query {
    /// A query without parameters.
    pub fn new(query: &str) -> (r: Query)
        ensures
            r.statement@ == query@,
            r.parameters@.len() == 0,
    {
        Query { statement: String::from_str(query), parameters: Vec::new() }
    }

    /// Sets a parameter, in place of an earlier one of the same name.
    pub fn param(&mut self, name: &str, value: Value)
        ensures
            final(self).statement == old(self).statement,
            entry_models(final(self).parameters@) == dict_insert(
                entry_models(old(self).parameters@),
                name@,
                model(value),
            ),
    {
        insert_value(&mut self.parameters, String::from_str(name), value);
    }

    /// The `RUN` of the query inside a transaction.
    pub fn into_run(self) -> (r: RunInTx)
        ensures
            r.query == self.statement,
            r.parameters == self.parameters,
    {
        RunInTx::new(self.statement, self.parameters)
    }

    /// The statement and the parameters.
    pub fn into_inner(self) -> (r: (String, Vec<(String, Value)>))
        ensures
            r.0 == self.statement,
            r.1 == self.parameters,
    {
        (self.statement, self.parameters)
    }
}

/// The two modes of a transaction.
#[derive(Debug, Clone, Copy, PartialEq, Eq, Structural)]
pub enum CommitMode {
    Read,
    Write,
}

/// The text of a mode on the wire: `r` or `w`.
pub open spec fn mode_text(m: CommitMode) -> Seq<char> {
    match m {
        CommitMode::Read => "r"@,
        CommitMode::Write => "w"@,
    }
}

/// The extra metadata of a `RUN` outside a transaction, or of a `BEGIN`.
#[derive(Debug, Clone, PartialEq)]
pub struct CommitPrepare {
    pub bookmarks: Vec<String>,
    pub tx_timeout: Option<i64>,
    pub tx_metadata: Vec<(String, Value)>,
    pub mode: Option<CommitMode>,
    pub db: Option<String>,
}

/// Text values of strings.
pub open spec fn text_models(s: Seq<String>) -> Seq<ValueModel> {
    Seq::new(s.len(), |i: int| ValueModel::Text(s[i]@))
}

/// The entries of a commit preparation on the wire: only the fields that are
/// set, in the order bookmarks, timeout, metadata, mode, database; no empty
/// list and no empty dictionary.
pub open spec fn commit_prepare_entries(c: CommitPrepare) -> Seq<(Seq<char>, ValueModel)> {
    (if c.bookmarks@.len() > 0 {
        seq![("bookmarks"@, ValueModel::List(text_models(c.bookmarks@)))]
    } else {
        Seq::empty()
    }) + (match c.tx_timeout {
        Some(t) => seq![("tx_timeout"@, ValueModel::Integer(t))],
        None => Seq::empty(),
    }) + (if c.tx_metadata@.len() > 0 {
        seq![("tx_metadata"@, ValueModel::Dictionary(entry_models(c.tx_metadata@)))]
    } else {
        Seq::empty()
    }) + (match c.mode {
        Some(m) => seq![("mode"@, ValueModel::Text(mode_text(m)))],
        None => Seq::empty(),
    }) + (match c.db {
        Some(d) => seq![("db"@, ValueModel::Text(d@))],
        None => Seq::empty(),
    })
}

impl CommitPrepare {
    /// Whether the preparation sets nothing.
    pub open spec fn is_unset(&self) -> bool {
        &&& self.bookmarks@.len() == 0
        &&& self.tx_timeout is None
        &&& self.tx_metadata@.len() == 0
        &&& self.mode is None
        &&& self.db is None
    }

    /// A preparation that sets nothing.
    pub fn new() -> (r: CommitPrepare)
        ensures
            r.bookmarks@.len() == 0,
            r.tx_timeout is None,
            r.tx_metadata@.len() == 0,
            r.mode is None,
            r.db is None,
    {
        CommitPrepare {
            bookmarks: Vec::new(),
            tx_timeout: None,
            tx_metadata: Vec::new(),
            mode: None,
            db: None,
        }
    }

    /// Sets the transaction timeout.
    pub fn set_timeout(&mut self, secs: Option<i64>)
        ensures
            *final(self) == (CommitPrepare { tx_timeout: secs, ..*old(self) }),
    {
        self.tx_timeout = secs;
    }

    /// Sets the access mode.
    pub fn set_mode(&mut self, mode: Option<CommitMode>)
        ensures
            *final(self) == (CommitPrepare { mode: mode, ..*old(self) }),
    {
        self.mode = mode;
    }

    /// Sets the database.
    pub fn set_db(&mut self, db_name: &str)
        ensures
            final(self).db matches Some(d) && d@ == db_name@,
            final(self).bookmarks == old(self).bookmarks,
            final(self).tx_timeout == old(self).tx_timeout,
            final(self).tx_metadata == old(self).tx_metadata,
            final(self).mode == old(self).mode,
    {
        self.db = Some(String::from_str(db_name));
    }

    /// Sets an entry of the transaction metadata.
    pub fn add_metadata(&mut self, name: &str, value: Value)
        ensures
            entry_models(final(self).tx_metadata@) == dict_insert(
                entry_models(old(self).tx_metadata@),
                name@,
                model(value),
            ),
            final(self).bookmarks == old(self).bookmarks,
            final(self).tx_timeout == old(self).tx_timeout,
            final(self).mode == old(self).mode,
            final(self).db == old(self).db,
    {
        insert_value(&mut self.tx_metadata, String::from_str(name), value);
    }

    /// Adds a bookmark that the work must come after.
    pub fn add_bookmark(&mut self, bookmark: Bookmark)
        ensures
            final(self).bookmarks@ == old(self).bookmarks@.push(bookmark.0),
            final(self).tx_timeout == old(self).tx_timeout,
            final(self).tx_metadata == old(self).tx_metadata,
            final(self).mode == old(self).mode,
            final(self).db == old(self).db,
    {
        self.bookmarks.push(bookmark.into_inner());
    }

    /// The dictionary that carries the preparation on the wire.
    pub fn to_value(&self) -> (r: Value)
        ensures
            model(r) == ValueModel::Dictionary(commit_prepare_entries(*self)),
    {
        let mut entries: Vec<(String, Value)> = Vec::new();
        let ghost e0 = entry_models(entries@);
        assert(e0 =~= Seq::<(Seq<char>, ValueModel)>::empty());
        if self.bookmarks.len() > 0 {
            let mut items: Vec<Value> = Vec::new();
            let mut i: usize = 0;
            while i < self.bookmarks.len()
                invariant
                    i <= self.bookmarks@.len(),
                    models(items@) == text_models(self.bookmarks@.subrange(0, i as int)),
                decreases self.bookmarks.len() - i,
            {
                let item = Value::String(self.bookmarks[i].clone());
                proof {
                    lemma_models_push(items@, item);
                }
                items.push(item);
                i = i + 1;
                assert(models(items@) =~= text_models(self.bookmarks@.subrange(0, i as int)));
            }
            assert(self.bookmarks@.subrange(0, self.bookmarks@.len() as int) =~= self.bookmarks@);
            let key = String::from_str("bookmarks");
            let v = Value::List(items);
            proof {
                lemma_entry_models_push(entries@, key, v);
            }
            entries.push((key, v));
        }
        let ghost e1 = entry_models(entries@);
        match self.tx_timeout {
            Some(t) => {
                let key = String::from_str("tx_timeout");
                let v = Value::Integer(t);
                proof {
                    lemma_entry_models_push(entries@, key, v);
                }
                entries.push((key, v));
            },
            None => {},
        }
        let ghost e2 = entry_models(entries@);
        if self.tx_metadata.len() > 0 {
            let key = String::from_str("tx_metadata");
            let v = Value::Dictionary(copy_entries(&self.tx_metadata));
            proof {
                lemma_entry_models_push(entries@, key, v);
            }
            entries.push((key, v));
        }
        let ghost e3 = entry_models(entries@);
        match self.mode {
            Some(m) => {
                let key = String::from_str("mode");
                let v = match m {
                    CommitMode::Read => text("r"),
                    CommitMode::Write => text("w"),
                };
                proof {
                    lemma_entry_models_push(entries@, key, v);
                }
                entries.push((key, v));
            },
            None => {},
        }
        let ghost e4 = entry_models(entries@);
        match &self.db {
            Some(d) => {
                let key = String::from_str("db");
                let v = Value::String(d.clone());
                proof {
                    lemma_entry_models_push(entries@, key, v);
                }
                entries.push((key, v));
            },
            None => {},
        }
        assert(entry_models(entries@) =~= commit_prepare_entries(*self));
        Value::Dictionary(entries)
    }
}

/// Appends an entry at the end of a dictionary.
fn push_entry(entries: &mut Vec<(String, Value)>, key: String, value: Value)
    ensures
        entry_models(final(entries)@) == entry_models(old(entries)@).push((key@, model(value))),
{
    proof {
        lemma_entry_models_push(entries@, key, value);
    }
    entries.push((key, value));
}

/// A structure value with the given fields.
fn make_structure(tag: u8, fields: Vec<Value>) -> (r: Value)
    ensures
        model(r) == structure(tag, models(fields@)),
{
    Value::Structure(tag, fields)
}

/// `HELLO`: authenticates a connection.
#[derive(Debug, Clone, PartialEq)]
pub struct Hello {
    pub extra: Vec<(String, Value)>,
}

/// The user agent, scheme, principal and credentials of a `HELLO`, in this order.
pub open spec fn hello_entries(
    agent_name: Seq<char>,
    version: Seq<char>,
    scheme: Seq<char>,
    principal: Seq<char>,
    credentials: Seq<char>,
) -> Seq<(Seq<char>, ValueModel)> {
    seq![
        ("user_agent"@, ValueModel::Text(agent_name + "/"@ + version)),
        ("scheme"@, ValueModel::Text(scheme)),
        ("principal"@, ValueModel::Text(principal)),
        ("credentials"@, ValueModel::Text(credentials)),
    ]
}

impl Hello {
    /// A `HELLO` with the user agent `agent_name/version` and the credentials.
    pub fn new(agent_name: &str, version: &str, scheme: &str, principal: &str, credentials: &str) -> (r:
        Hello)
        ensures
            entry_models(r.extra@) == hello_entries(
                agent_name@,
                version@,
                scheme@,
                principal@,
                credentials@,
            ),
    {
        let mut agent = String::from_str(agent_name);
        agent.append("/");
        agent.append(version);
        let mut extra: Vec<(String, Value)> = Vec::new();
        push_entry(&mut extra, String::from_str("user_agent"), Value::String(agent));
        push_entry(&mut extra, String::from_str("scheme"), text(scheme));
        push_entry(&mut extra, String::from_str("principal"), text(principal));
        push_entry(&mut extra, String::from_str("credentials"), text(credentials));
        assert(entry_models(extra@) =~= hello_entries(
            agent_name@,
            version@,
            scheme@,
            principal@,
            credentials@,
        ));
        Hello { extra }
    }

    /// The structure of the request.
    pub fn to_value(&self) -> (r: Value)
        ensures
            model(r) == structure(0x01, seq![ValueModel::Dictionary(entry_models(self.extra@))]),
    {
        let mut fields: Vec<Value> = Vec::new();
        let d = Value::Dictionary(copy_entries(&self.extra));
        proof {
            lemma_models_push(fields@, d);
        }
        fields.push(d);
        Value::Structure(0x01, fields)
    }
}

/// A list of values with one entry.
fn one(v: Value) -> (r: Vec<Value>)
    ensures
        models(r@) == seq![model(v)],
{
    let mut r: Vec<Value> = Vec::new();
    proof {
        lemma_models_push(r@, v);
    }
    r.push(v);
    r
}

/// `GOODBYE`: closes a connection; the server does not answer.
#[derive(Debug, Clone, Copy, PartialEq, Eq, Structural)]
pub struct GoodBye {}

/// `RESET`: brings a connection back to ready.
#[derive(Debug, Clone, Copy, PartialEq, Eq, Structural)]
pub struct Reset {}

/// `COMMIT`: ends a transaction and keeps its work.
#[derive(Debug, Clone, Copy, PartialEq, Eq, Structural)]
pub struct Commit {}

/// `ROLLBACK`: ends a transaction and drops its work.
#[derive(Debug, Clone, Copy, PartialEq, Eq, Structural)]
pub struct RollBack {}

impl GoodBye {
    pub fn to_value(&self) -> (r: Value)
        ensures
            model(r) == structure(0x02, Seq::empty()),
    {
        make_structure(0x02, Vec::new())
    }
}

impl Reset {
    pub fn to_value(&self) -> (r: Value)
        ensures
            model(r) == structure(0x0F, Seq::empty()),
    {
        make_structure(0x0F, Vec::new())
    }
}

impl Commit {
    pub fn to_value(&self) -> (r: Value)
        ensures
            model(r) == structure(0x12, Seq::empty()),
    {
        make_structure(0x12, Vec::new())
    }
}

impl RollBack {
    pub fn to_value(&self) -> (r: Value)
        ensures
            model(r) == structure(0x13, Seq::empty()),
    {
        make_structure(0x13, Vec::new())
    }
}

/// `RUN` inside a transaction: a statement, its parameters, and an empty extra.
#[derive(Debug, Clone, PartialEq)]
pub struct RunInTx {
    pub query: String,
    pub parameters: Vec<(String, Value)>,
}

impl RunInTx {
    pub fn new(query: String, parameters: Vec<(String, Value)>) -> (r: RunInTx)
        ensures
            r.query == query,
            r.parameters == parameters,
    {
        RunInTx { query, parameters }
    }

    /// The structure of the request.
    pub fn to_value(&self) -> (r: Value)
        ensures
            model(r) == structure(
                0x10,
                seq![
                    ValueModel::Text(self.query@),
                    ValueModel::Dictionary(entry_models(self.parameters@)),
                    ValueModel::Dictionary(Seq::empty()),
                ],
            ),
    {
        let mut fields: Vec<Value> = Vec::new();
        let q = Value::String(self.query.clone());
        let p = Value::Dictionary(copy_entries(&self.parameters));
        let e = Value::Dictionary(Vec::new());
        proof {
            lemma_models_push(fields@, q);
        }
        fields.push(q);
        proof {
            lemma_models_push(fields@, p);
        }
        fields.push(p);
        proof {
            lemma_models_push(fields@, e);
            assert(entry_models(Seq::<(String, Value)>::empty()) =~= Seq::empty());
        }
        fields.push(e);
        let r = make_structure(0x10, fields);
        assert(models(fields@) =~= seq![
            ValueModel::Text(self.query@),
            ValueModel::Dictionary(entry_models(self.parameters@)),
            ValueModel::Dictionary(Seq::empty()),
        ]);
        r
    }
}

/// `RUN` outside a transaction: a query with its commit preparation.
#[derive(Debug, Clone, PartialEq)]
pub struct Run {
    pub query: Query,
    pub extra: CommitPrepare,
}

impl Run {
    /// A `RUN` of the query that prepares nothing.
    pub fn new(query: &Query) -> (r: Run)
        ensures
            r.query.statement == query.statement,
            entry_models(r.query.parameters@) == entry_models(query.parameters@),
            r.extra.is_unset(),
    {
        Run {
            query: Query { statement: query.statement.clone(), parameters: copy_entries(&query.parameters) },
            extra: CommitPrepare::new(),
        }
    }

    /// The commit preparation, to change.
    pub fn commit_prepare(&mut self) -> (r: &mut CommitPrepare)
        ensures
            *r == old(self).extra,
            final(self).extra == *final(r),
            final(self).query == old(self).query,
    {
        &mut self.extra
    }

    /// The structure of the request.
    pub fn to_value(&self) -> (r: Value)
        ensures
            model(r) == structure(
                0x10,
                seq![
                    ValueModel::Text(self.query.statement@),
                    ValueModel::Dictionary(entry_models(self.query.parameters@)),
                    ValueModel::Dictionary(commit_prepare_entries(self.extra)),
                ],
            ),
    {
        let mut fields: Vec<Value> = Vec::new();
        let q = Value::String(self.query.statement.clone());
        let p = Value::Dictionary(copy_entries(&self.query.parameters));
        let e = self.extra.to_value();
        proof {
            lemma_models_push(fields@, q);
        }
        fields.push(q);
        proof {
            lemma_models_push(fields@, p);
        }
        fields.push(p);
        proof {
            lemma_models_push(fields@, e);
        }
        fields.push(e);
        assert(models(fields@) =~= seq![
            ValueModel::Text(self.query.statement@),
            ValueModel::Dictionary(entry_models(self.query.parameters@)),
            ValueModel::Dictionary(commit_prepare_entries(self.extra)),
        ]);
        make_structure(0x10, fields)
    }
}

/// `BEGIN`: opens a transaction.
#[derive(Debug, Clone, PartialEq)]
pub struct Begin {
    pub extra: CommitPrepare,
}

impl Begin {
    pub fn new(preparation: CommitPrepare) -> (r: Begin)
        ensures
            r.extra == preparation,
    {
        Begin { extra: preparation }
    }

    /// The commit preparation, to change.
    pub fn commit_prepare(&mut self) -> (r: &mut CommitPrepare)
        ensures
            *r == old(self).extra,
            final(self).extra == *final(r),
    {
        &mut self.extra
    }

    /// The structure of the request.
    pub fn to_value(&self) -> (r: Value)
        ensures
            model(r) == structure(
                0x11,
                seq![ValueModel::Dictionary(commit_prepare_entries(self.extra))],
            ),
    {
        make_structure(0x11, one(self.extra.to_value()))
    }
}

/// How many records to pull or discard.
#[derive(Debug, Clone, Copy, PartialEq, Eq, Structural)]
pub enum Amount {
    Many(i64),
    All,
}

/// Which stream to pull from or discard.
#[derive(Debug, Clone, Copy, PartialEq, Eq, Structural)]
pub enum Qid {
    Exact(i64),
    Last,
}

/// `n` on the wire: `-1` for all.
pub open spec fn amount_value(n: Amount) -> i64 {
    match n {
        Amount::Many(x) => x,
        Amount::All => -1i64,
    }
}

/// `qid` on the wire: `-1` for the last stream opened.
pub open spec fn qid_value(q: Qid) -> i64 {
    match q {
        Qid::Exact(x) => x,
        Qid::Last => -1i64,
    }
}

/// The extra of `PULL` and `DISCARD`: `n`, then `qid`.
pub open spec fn stream_entries(n: Amount, qid: Qid) -> Seq<(Seq<char>, ValueModel)> {
    seq![
        ("n"@, ValueModel::Integer(amount_value(n))),
        ("qid"@, ValueModel::Integer(qid_value(qid))),
    ]
}

/// The extra of `PULL` and `DISCARD`.
fn stream_extra(n: Amount, qid: Qid) -> (r: Vec<(String, Value)>)
    ensures
        entry_models(r@) == stream_entries(n, qid),
{
    let mut extra: Vec<(String, Value)> = Vec::new();
    let nv = match n {
        Amount::Many(x) => x,
        Amount::All => -1i64,
    };
    let qv = match qid {
        Qid::Exact(x) => x,
        Qid::Last => -1i64,
    };
    push_entry(&mut extra, String::from_str("n"), Value::Integer(nv));
    push_entry(&mut extra, String::from_str("qid"), Value::Integer(qv));
    assert(entry_models(extra@) =~= stream_entries(n, qid));
    extra
}

/// `PULL`: asks for records of an open stream.
#[derive(Debug, Clone, PartialEq)]
pub struct Pull {
    pub extra: Vec<(String, Value)>,
}

impl Pull {
    pub fn new(n: Amount, qid: Qid) -> (r: Pull)
        ensures
            entry_models(r.extra@) == stream_entries(n, qid),
    {
        Pull { extra: stream_extra(n, qid) }
    }

    /// All records of the stream `qid`.
    pub fn all(qid: i64) -> (r: Pull)
        ensures
            entry_models(r.extra@) == stream_entries(Amount::All, Qid::Exact(qid)),
    {
        Pull::new(Amount::All, Qid::Exact(qid))
    }

    /// All records of the last stream opened.
    pub fn all_from_last() -> (r: Pull)
        ensures
            entry_models(r.extra@) == stream_entries(Amount::All, Qid::Last),
    {
        Pull::new(Amount::All, Qid::Last)
    }

    /// The structure of the request.
    pub fn to_value(&self) -> (r: Value)
        ensures
            model(r) == structure(0x3F, seq![ValueModel::Dictionary(entry_models(self.extra@))]),
    {
        make_structure(0x3F, one(Value::Dictionary(copy_entries(&self.extra))))
    }
}

/// `DISCARD`: drops records of an open stream.
#[derive(Debug, Clone, PartialEq)]
pub struct Discard {
    pub extra: Vec<(String, Value)>,
}

impl Discard {
    pub fn new(n: Amount, qid: Qid) -> (r: Discard)
        ensures
            entry_models(r.extra@) == stream_entries(n, qid),
    {
        Discard { extra: stream_extra(n, qid) }
    }

    /// The structure of the request.
    pub fn to_value(&self) -> (r: Value)
        ensures
            model(r) == structure(0x2F, seq![ValueModel::Dictionary(entry_models(self.extra@))]),
    {
        make_structure(0x2F, one(Value::Dictionary(copy_entries(&self.extra))))
    }
}

} // verus!
