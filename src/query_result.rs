//! The result of a query read in one go: the metadata of its opening and final
//! `SUCCESS`, the field names, and one row per record.

use crate::client::{row_entries, RecordResult};
use crate::dictionary::{dict_insert, find_key, get_value, insert_value, key_index, lookup};
use crate::response::{strings_of, text_list, texts_of, Record};
use crate::value::{entry_models, lemma_entry_models_index, model, models, Value, ValueModel};
use vstd::prelude::*;
use vstd::string::StringExecFns;

verus! {

/// Why a query result could not be built.
#[derive(Debug, Clone, PartialEq)]
pub enum QueryResultError {
    /// A record with fewer values than fields; names the first field that has
    /// no value.
    RecordMissesField(String),
    /// A record with more values than fields.
    RecordHasTooMuchFields,
    /// No metadata of that name.
    UnknownMetaField(String),
    /// The opening `SUCCESS` has no list of fields.
    NoFieldsInSuccess,
    /// The list of fields holds something other than texts.
    InvalidFieldsStructure,
}

/// The entries without the first one whose key is `k`.
pub open spec fn dict_remove(es: Seq<(Seq<char>, ValueModel)>, k: Seq<char>) -> Seq<
    (Seq<char>, ValueModel),
> {
    match key_index(es, k) {
        Some(i) => es.remove(i),
        None => es,
    }
}

/// The entries with each entry of `new` set in turn.
pub open spec fn dict_insert_all(
    es: Seq<(Seq<char>, ValueModel)>,
    new: Seq<(Seq<char>, ValueModel)>,
) -> Seq<(Seq<char>, ValueModel)>
    decreases new.len(),
{
    if new.len() == 0 {
        es
    } else {
        dict_insert(dict_insert_all(es, new.drop_last()), new.last().0, new.last().1)
    }
}

/// A query result being read.
#[derive(Debug, Clone, PartialEq)]
pub struct QueryResult {
    pub meta_fields: Vec<(String, Value)>,
    pub record_fields: Vec<String>,
    pub records: Vec<Vec<(String, Value)>>,
}

impl QueryResult {
    /// A result opened by the metadata of a `SUCCESS`: its `fields` become the
    /// field names and leave the metadata.
    pub fn begin(metadata: Vec<(String, Value)>) -> (r: Result<QueryResult, QueryResultError>)
        ensures
            !(lookup(entry_models(metadata@), "fields"@) matches Some(ValueModel::List(_)))
                ==> r == Err::<QueryResult, _>(QueryResultError::NoFieldsInSuccess),
            (lookup(entry_models(metadata@), "fields"@) matches Some(ValueModel::List(_)))
                && text_list(lookup(entry_models(metadata@), "fields"@)) is None ==> r == Err::<
                QueryResult,
                _,
            >(QueryResultError::InvalidFieldsStructure),
            text_list(lookup(entry_models(metadata@), "fields"@)) is Some ==> r is Ok,
            r matches Ok(q) ==> text_list(lookup(entry_models(metadata@), "fields"@)) == Some(
                texts_of(q.record_fields@),
            ) && entry_models(q.meta_fields@) == dict_remove(entry_models(metadata@), "fields"@)
                && q.records@.len() == 0,
    {
        let key = String::from_str("fields");
        let ghost es = entry_models(metadata@);
        proof {
            lemma_entry_models_index(metadata@);
        }
        let i = match find_key(&metadata, &key) {
            Some(i) => i,
            None => {
                return Err(QueryResultError::NoFieldsInSuccess);
            },
        };
        let fields = match &metadata[i].1 {
            Value::List(items) => match strings_of(items) {
                Some(f) => f,
                None => {
                    return Err(QueryResultError::InvalidFieldsStructure);
                },
            },
            _ => {
                return Err(QueryResultError::NoFieldsInSuccess);
            },
        };
        let mut meta = metadata;
        let ghost before = meta@;
        meta.remove(i);
        proof {
            lemma_entry_models_index(meta@);
            assert(meta@ == before.remove(i as int));
            assert(entry_models(meta@) =~= es.remove(i as int));
        }
        Ok(QueryResult { meta_fields: meta, record_fields: fields, records: Vec::new() })
    }

    /// Adds the row of a record; it must have one value per field.
    pub fn push(&mut self, record: Vec<Value>) -> (r: Result<(), QueryResultError>)
        ensures
            final(self).meta_fields == old(self).meta_fields,
            final(self).record_fields == old(self).record_fields,
            record@.len() > old(self).record_fields@.len() ==> r == Err::<(), _>(
                QueryResultError::RecordHasTooMuchFields,
            ) && final(self).records == old(self).records,
            record@.len() < old(self).record_fields@.len() ==> final(self).records == old(self).records && (r matches Err(QueryResultError::RecordMissesField(f)) && f@ == old(self).record_fields@[record@.len() as int]@),
            record@.len() == old(self).record_fields@.len() ==> r is Ok && final(self).records@.len() == old(self).records@.len() + 1 && (forall|i: int|
                0 <= i < old(self).records@.len() ==> #[trigger] final(self).records@[i] == old(self).records@[i]) && entry_models(final(self).records@.last()@) == row_entries(texts_of(old(self).record_fields@),
                models(record@),
            ),
    {
        let n = self.record_fields.len();
        if record.len() > n {
            return Err(QueryResultError::RecordHasTooMuchFields);
        }
        if record.len() < n {
            return Err(QueryResultError::RecordMissesField(self.record_fields[record.len()].clone()));
        }
        match RecordResult::new(&self.record_fields, Record { data: record }) {
            Ok(row) => {
                self.records.push(row.data);
                Ok(())
            },
            Err(_) => Err(QueryResultError::RecordHasTooMuchFields),
        }
    }

    /// Adds the metadata of the final `SUCCESS`, each entry in place of an
    /// earlier one of the same key.
    pub fn end(&mut self, final_fields: Vec<(String, Value)>)
        ensures
            entry_models(final(self).meta_fields@) == dict_insert_all(
                entry_models(old(self).meta_fields@),
                entry_models(final_fields@),
            ),
            final(self).record_fields == old(self).record_fields,
            final(self).records == old(self).records,
    {
        let ghost start = entry_models(self.meta_fields@);
        let ghost news = entry_models(final_fields@);
        proof {
            lemma_entry_models_index(final_fields@);
            assert(news.subrange(0, 0) =~= Seq::<(Seq<char>, ValueModel)>::empty());
        }
        let mut i: usize = 0;
        while i < final_fields.len()
            invariant
                i <= final_fields@.len(),
                news == entry_models(final_fields@),
                news.len() == final_fields@.len(),
                forall|j: int|
                    0 <= j < final_fields@.len() ==> #[trigger] news[j] == (
                        final_fields@[j].0@,
                        model(final_fields@[j].1),
                    ),
                entry_models(self.meta_fields@) == dict_insert_all(
                    start,
                    news.subrange(0, i as int),
                ),
                self.record_fields == old(self).record_fields,
                self.records == old(self).records,
            decreases final_fields.len() - i,
        {
            let key = final_fields[i].0.clone();
            let value = final_fields[i].1.deep_copy();
            insert_value(&mut self.meta_fields, key, value);
            proof {
                let sub = news.subrange(0, i + 1);
                assert(sub.drop_last() =~= news.subrange(0, i as int));
                assert(sub.last() == news[i as int]);
            }
            i = i + 1;
        }
        assert(news.subrange(0, news.len() as int) =~= news);
    }

    /// The row of the record at `index`.
    pub fn get_record(&self, index: usize) -> (r: Option<&Vec<(String, Value)>>)
        ensures
            index < self.records@.len() ==> r == Some(&self.records@[index as int]),
            index >= self.records@.len() ==> r is None,
    {
        if index < self.records.len() {
            Some(&self.records[index])
        } else {
            None
        }
    }

    /// The metadata entry `name`.
    pub fn get_meta(&self, name: &String) -> (r: Result<&Value, QueryResultError>)
        ensures
            match r {
                Ok(v) => lookup(entry_models(self.meta_fields@), name@) == Some(model(*v)),
                Err(e) => lookup(entry_models(self.meta_fields@), name@) is None && e
                    == QueryResultError::UnknownMetaField(*name),
            },
    {
        match get_value(&self.meta_fields, name) {
            Some(v) => Ok(v),
            None => Err(QueryResultError::UnknownMetaField(name.clone())),
        }
    }
}

} // verus!
