//! The responses of the server: `SUCCESS`, `RECORD`, `IGNORED` and `FAILURE`.

use crate::dictionary::{get_value, lookup};
use crate::error::{ClientError, UnpackError};
use crate::packstream::dec;
use crate::value::{entry_models, lemma_models_index, model, models, Value, ValueModel};
use vstd::prelude::*;
use vstd::string::StringExecFns;

verus! {

/// A `SUCCESS` and its metadata.
#[derive(Debug, Clone, PartialEq)]
pub struct Success {
    pub metadata: Vec<(String, Value)>,
}

/// A `FAILURE` and its metadata.
#[derive(Debug, Clone, PartialEq)]
pub struct Failure {
    pub metadata: Vec<(String, Value)>,
}

/// A `RECORD` and its values.
#[derive(Debug, Clone, PartialEq)]
pub struct Record {
    pub data: Vec<Value>,
}

/// A response of the server.
#[derive(Debug, Clone, PartialEq)]
pub enum Response {
    Success(Success),
    Ignored,
    Failure(Failure),
    Record(Record),
}

/// What a response denotes.
pub enum ResponseModel {
    Success(Seq<(Seq<char>, ValueModel)>),
    Ignored,
    Failure(Seq<(Seq<char>, ValueModel)>),
    Record(Seq<ValueModel>),
}

pub open spec fn response_model(r: Response) -> ResponseModel {
    match r {
        Response::Success(s) => ResponseModel::Success(entry_models(s.metadata@)),
        Response::Ignored => ResponseModel::Ignored,
        Response::Failure(f) => ResponseModel::Failure(entry_models(f.metadata@)),
        Response::Record(rec) => ResponseModel::Record(models(rec.data@)),
    }
}

/// The response that a value stands for: a structure tagged `0x70` with a
/// dictionary (`SUCCESS`), `0x71` with a list (`RECORD`), `0x7E` without
/// fields (`IGNORED`), `0x7F` with a dictionary (`FAILURE`).
pub open spec fn parse_response(m: ValueModel) -> Result<ResponseModel, UnpackError> {
    match m {
        ValueModel::Structure(tag, fs) => if tag == 0x70 {
            if fs.len() == 1 && fs[0] is Dictionary {
                Ok(ResponseModel::Success(fs[0]->Dictionary_0))
            } else {
                Err(UnpackError::UnexpectedFields)
            }
        } else if tag == 0x71 {
            if fs.len() == 1 && fs[0] is List {
                Ok(ResponseModel::Record(fs[0]->List_0))
            } else {
                Err(UnpackError::UnexpectedFields)
            }
        } else if tag == 0x7E {
            if fs.len() == 0 {
                Ok(ResponseModel::Ignored)
            } else {
                Err(UnpackError::UnexpectedFields)
            }
        } else if tag == 0x7F {
            if fs.len() == 1 && fs[0] is Dictionary {
                Ok(ResponseModel::Failure(fs[0]->Dictionary_0))
            } else {
                Err(UnpackError::UnexpectedFields)
            }
        } else {
            Err(UnpackError::UnexpectedTag(tag))
        },
        _ => Err(UnpackError::NotAStructure),
    }
}

/// The response at the start of some bytes: the value there, read as a response.
pub open spec fn parse_response_bytes(b: Seq<u8>) -> Result<ResponseModel, UnpackError> {
    match dec(b) {
        Ok((m, _)) => parse_response(m),
        Err(e) => Err(e),
    }
}

/// The only field of a structure, taken out.
fn only_field(fields: Vec<Value>) -> (r: Option<Value>)
    ensures
        match r {
            Some(v) => fields@.len() == 1 && model(v) == models(fields@)[0],
            None => fields@.len() != 1,
        },
{
    proof {
        lemma_models_index(fields@);
    }
    if fields.len() != 1 {
        return None;
    }
    let mut fields = fields;
    fields.pop()
}

impl Response {
    /// The response that a value stands for.
    pub fn from_value(v: Value) -> (r: Result<Response, UnpackError>)
        ensures
            match r {
                Ok(resp) => parse_response(model(v)) == Ok::<_, UnpackError>(response_model(resp)),
                Err(e) => parse_response(model(v)) == Err::<ResponseModel, _>(e),
            },
    {
        match v {
            Value::Structure(tag, fields) => {
                proof {
                    lemma_models_index(fields@);
                }
                if tag == 0x70 || tag == 0x7F {
                    match only_field(fields) {
                        Some(Value::Dictionary(metadata)) => if tag == 0x70 {
                            Ok(Response::Success(Success { metadata }))
                        } else {
                            Ok(Response::Failure(Failure { metadata }))
                        },
                        _ => Err(UnpackError::UnexpectedFields),
                    }
                } else if tag == 0x71 {
                    match only_field(fields) {
                        Some(Value::List(data)) => Ok(Response::Record(Record { data })),
                        _ => Err(UnpackError::UnexpectedFields),
                    }
                } else if tag == 0x7E {
                    if fields.len() == 0 {
                        Ok(Response::Ignored)
                    } else {
                        Err(UnpackError::UnexpectedFields)
                    }
                } else {
                    Err(UnpackError::UnexpectedTag(tag))
                }
            },
            _ => Err(UnpackError::NotAStructure),
        }
    }

    /// The response whose byte form starts `bytes`.
    pub fn unpack(bytes: &[u8]) -> (r: Result<Response, UnpackError>)
        ensures
            match r {
                Ok(resp) => parse_response_bytes(bytes@) == Ok::<_, UnpackError>(
                    response_model(resp),
                ),
                Err(e) => parse_response_bytes(bytes@) == Err::<ResponseModel, _>(e),
            },
    {
        match crate::packstream::unpack(bytes) {
            Ok((v, _)) => Response::from_value(v),
            Err(e) => Err(e),
        }
    }

    /// Whether this is a `SUCCESS`.
    pub fn is_success(&self) -> (r: bool)
        ensures
            r == (*self is Success),
    {
        match self {
            Response::Success(_) => true,
            _ => false,
        }
    }
}

/// The texts of a list, when all its entries are texts.
pub open spec fn text_list(m: Option<ValueModel>) -> Option<Seq<Seq<char>>> {
    match m {
        Some(ValueModel::List(items)) => if forall|i: int|
            0 <= i < items.len() ==> #[trigger] items[i] is Text {
            Some(Seq::new(items.len(), |i: int| items[i]->Text_0))
        } else {
            None
        },
        _ => None,
    }
}

/// The characters of each string.
pub open spec fn texts_of(s: Seq<String>) -> Seq<Seq<char>> {
    Seq::new(s.len(), |i: int| s[i]@)
}

/// The text of a value, when it is one.
pub open spec fn text_of(m: Option<ValueModel>) -> Option<Seq<char>> {
    match m {
        Some(ValueModel::Text(t)) => Some(t),
        _ => None,
    }
}

/// The integer of a value, when it is one.
pub open spec fn int_of(m: Option<ValueModel>) -> Option<i64> {
    match m {
        Some(ValueModel::Integer(i)) => Some(i),
        _ => None,
    }
}

/// The strings of a list of text values, or nothing when one is no text.
pub fn strings_of(items: &Vec<Value>) -> (r: Option<Vec<String>>)
    ensures
        match r {
            Some(v) => text_list(Some(ValueModel::List(models(items@)))) == Some(texts_of(v@)),
            None => text_list(Some(ValueModel::List(models(items@)))) is None,
        },
{
    proof {
        lemma_models_index(items@);
    }
    let ghost ms = models(items@);
    let mut out: Vec<String> = Vec::new();
    let mut i: usize = 0;
    while i < items.len()
        invariant
            i <= items@.len(),
            ms == models(items@),
            ms.len() == items@.len(),
            forall|j: int| 0 <= j < items@.len() ==> #[trigger] ms[j] == model(items@[j]),
            out@.len() == i,
            forall|j: int| 0 <= j < i ==> #[trigger] ms[j] is Text && ms[j]->Text_0 == out@[j]@,
        decreases items.len() - i,
    {
        match &items[i] {
            Value::String(s) => {
                out.push(s.clone());
            },
            _ => {
                assert(!(ms[i as int] is Text));
                return None;
            },
        }
        i = i + 1;
    }
    assert(texts_of(out@) =~= Seq::new(ms.len(), |j: int| ms[j]->Text_0));
    Some(out)
}

/// The text of a metadata entry, when there is one.
fn text_entry(metadata: &Vec<(String, Value)>, key: &String) -> (r: Option<String>)
    ensures
        match r {
            Some(t) => text_of(lookup(entry_models(metadata@), key@)) == Some(t@),
            None => text_of(lookup(entry_models(metadata@), key@)) is None,
        },
{
    match get_value(metadata, key) {
        Some(Value::String(t)) => Some(t.clone()),
        _ => None,
    }
}

impl Success {
    /// The field names that a `SUCCESS` of `RUN` declares.
    pub fn fields(&self) -> (r: Option<Vec<String>>)
        ensures
            match r {
                Some(v) => text_list(lookup(entry_models(self.metadata@), "fields"@)) == Some(
                    texts_of(v@),
                ),
                None => text_list(lookup(entry_models(self.metadata@), "fields"@)) is None,
            },
    {
        let key = String::from_str("fields");
        match get_value(&self.metadata, &key) {
            Some(Value::List(items)) => strings_of(items),
            _ => None,
        }
    }

    /// The `qid` of the stream that a `SUCCESS` of `RUN` opened.
    pub fn qid(&self) -> (r: Option<i64>)
        ensures
            r == int_of(lookup(entry_models(self.metadata@), "qid"@)),
    {
        let key = String::from_str("qid");
        match get_value(&self.metadata, &key) {
            Some(Value::Integer(i)) => Some(*i),
            _ => None,
        }
    }

    /// The bookmark that a `SUCCESS` ending a commit carries.
    pub fn bookmark(&self) -> (r: Option<String>)
        ensures
            match r {
                Some(t) => text_of(lookup(entry_models(self.metadata@), "bookmark"@)) == Some(t@),
                None => text_of(lookup(entry_models(self.metadata@), "bookmark"@)) is None,
            },
    {
        let key = String::from_str("bookmark");
        text_entry(&self.metadata, &key)
    }

    /// Whether the metadata holds a textual bookmark.
    pub fn has_bookmark(&self) -> (r: bool)
        ensures
            r == text_of(lookup(entry_models(self.metadata@), "bookmark"@)) is Some,
    {
        self.bookmark().is_some()
    }

    /// Whether more records wait to be pulled; `false` when the metadata does
    /// not say.
    pub fn has_more(&self) -> (r: bool)
        ensures
            r == (lookup(entry_models(self.metadata@), "has_more"@) == Some(
                ValueModel::Boolean(true),
            )),
    {
        let key = String::from_str("has_more");
        match get_value(&self.metadata, &key) {
            Some(Value::Boolean(b)) => *b,
            _ => false,
        }
    }
}

/// The text of an entry, or `<unknown>` when there is none.
pub open spec fn text_or_unknown(m: Option<ValueModel>) -> Seq<char> {
    match text_of(m) {
        Some(t) => t,
        None => "<unknown>"@,
    }
}

impl Failure {
    /// The message of the failure, or `<unknown>`.
    pub fn message(&self) -> (r: String)
        ensures
            r@ == text_or_unknown(lookup(entry_models(self.metadata@), "message"@)),
    {
        let key = String::from_str("message");
        match text_entry(&self.metadata, &key) {
            Some(t) => t,
            None => String::from_str("<unknown>"),
        }
    }

    /// The code of the failure, or `<unknown>`.
    pub fn code(&self) -> (r: String)
        ensures
            r@ == text_or_unknown(lookup(entry_models(self.metadata@), "code"@)),
    {
        let key = String::from_str("code");
        match text_entry(&self.metadata, &key) {
            Some(t) => t,
            None => String::from_str("<unknown>"),
        }
    }
}

/// The token that a successful commit returns, to ask for later work to see it.
#[derive(Debug, Clone, PartialEq)]
pub struct Bookmark(pub String);

impl Bookmark {
    /// The bookmark of the `SUCCESS` that ends a commit.
    pub fn from_success(s: &Success) -> (r: Result<Bookmark, ClientError>)
        ensures
            match r {
                Ok(b) => text_of(lookup(entry_models(s.metadata@), "bookmark"@)) == Some(b.0@),
                Err(e) => text_of(lookup(entry_models(s.metadata@), "bookmark"@)) is None && e
                    == ClientError::NoBookmarkInformationInCommit,
            },
    {
        match s.bookmark() {
            Some(t) => Ok(Bookmark(t)),
            None => Err(ClientError::NoBookmarkInformationInCommit),
        }
    }

    /// The text of the bookmark.
    pub fn value(&self) -> (r: &String)
        ensures
            *r == self.0,
    {
        &self.0
    }

    /// The text of the bookmark, taken out.
    pub fn into_inner(self) -> (r: String)
        ensures
            r == self.0,
    {
        self.0
    }
}

} // verus!
