//! Reading a record out of the dictionary service's answer.
use vstd::prelude::*;
use miniserde::json::{Array, Object, Value};
use crate::error::{ErrorModel, LookupError};
use crate::json::{array_elements, array_items, field, object_get, parse_json, parsed_json};
use crate::record::{RecordModel, WordInfo, MAX_DEFINITIONS};

verus! {

/// The text that stands for a missing or non-text field.
pub open spec fn sentinel() -> Seq<char> {
    seq!['n', 'u', 'l', 'l']
}

/// A text value, or the sentinel for anything else.
pub open spec fn text_or_sentinel(v: Option<Value>) -> Seq<char> {
    match v {
        Some(Value::String(s)) => s@,
        _ => sentinel(),
    }
}

/// The `definition` text of one element of a meaning's definitions.
pub open spec fn definition_text(v: Value) -> Seq<char> {
    match v {
        Value::Object(o) => text_or_sentinel(field(o, "definition"@)),
        _ => sentinel(),
    }
}

/// The texts of the first definitions, at most the cap, in source order.
pub open spec fn first_definitions(items: Seq<Value>) -> Seq<Seq<char>> {
    let n = if items.len() < MAX_DEFINITIONS { items.len() as int } else { MAX_DEFINITIONS as int };
    items.take(n).map_values(|v: Value| definition_text(v))
}

/// The record read from one entry object of the answer.
pub open spec fn entry_outcome(entry: Object) -> Result<RecordModel, ErrorModel> {
    match field(entry, "meanings"@) {
        Some(Value::Array(ms)) => if array_items(ms).len() == 0 {
            Err(ErrorModel::MalformedResponse)
        } else {
            match array_items(ms)[0] {
                Value::Object(m) => match field(m, "definitions"@) {
                    Some(Value::Array(ds)) => Ok(
                        RecordModel {
                            phonetic: text_or_sentinel(field(entry, "phonetic"@)),
                            part_of_speech: text_or_sentinel(field(m, "partOfSpeech"@)),
                            definitions: first_definitions(array_items(ds)),
                        },
                    ),
                    _ => Err(ErrorModel::MalformedResponse),
                },
                _ => Err(ErrorModel::MalformedResponse),
            }
        },
        _ => Err(ErrorModel::MalformedResponse),
    }
}

/// The record read from a whole answer body: its first entry is used.
pub open spec fn body_outcome(body: Value) -> Result<RecordModel, ErrorModel> {
    match body {
        Value::Array(a) => if array_items(a).len() == 0 {
            Err(ErrorModel::FetchFailed)
        } else {
            match array_items(a)[0] {
                Value::Object(entry) => entry_outcome(entry),
                _ => Err(ErrorModel::MalformedResponse),
            }
        },
        _ => Err(ErrorModel::FetchFailed),
    }
}

/// What a lookup yields for an answer with this status and body text.
pub open spec fn fetch_outcome(word: Seq<char>, status: i32, body: Seq<char>) -> Result<RecordModel, ErrorModel> {
    if status == 404 {
        Err(ErrorModel::WordNotFound(word))
    } else if status != 200 {
        Err(ErrorModel::FetchFailed)
    } else {
        match parsed_json(body) {
            Some(v) => body_outcome(v),
            None => Err(ErrorModel::FetchFailed),
        }
    }
}

/// A result with the record seen as its model.
pub open spec fn outcome_view(r: Result<WordInfo, LookupError>) -> Result<RecordModel, ErrorModel> {
    match r {
        Ok(w) => Ok(w@),
        Err(e) => Err(e@),
    }
}

/// A meaning with at least the cap of definitions gives exactly the cap, the
/// first ones in source order; a shorter list is kept whole, with no padding.
pub proof fn lemma_definitions_capped(items: Seq<Value>)
    ensures
        items.len() >= MAX_DEFINITIONS ==> first_definitions(items).len() == MAX_DEFINITIONS,
        items.len() < MAX_DEFINITIONS ==> first_definitions(items).len() == items.len(),
        forall|i: int| 0 <= i < first_definitions(items).len() ==>
            #[trigger] first_definitions(items)[i] == definition_text(items[i]),
{
}

/// An entry without a `phonetic` member, or with one that is not text, gives a
/// record whose phonetic is the sentinel, not an error.
pub proof fn lemma_phonetic_sentinel(entry: Object)
    requires
        entry_outcome(entry) is Ok,
        !(field(entry, "phonetic"@) matches Some(Value::String(_))),
    ensures
        entry_outcome(entry)->Ok_0.phonetic == sentinel(),
{
}

fn sentinel_string() -> (r: String)
    ensures
        r@ == sentinel(),
{
    proof {
        reveal_strlit("null");
    }
    "null".to_owned()
}

fn text_of(v: Option<&Value>) -> (r: String)
    ensures
        r@ == text_or_sentinel(match v {
            Some(x) => Some(*x),
            None => None,
        }),
{
    match v {
        Some(Value::String(s)) => s.clone(),
        _ => sentinel_string(),
    }
}

fn definitions_of(ds: &Array) -> (r: Vec<String>)
    ensures
        crate::record::strings_view(r@) == first_definitions(array_items(*ds)),
{
    let items = array_elements(ds);
    let mut r: Vec<String> = Vec::new();
    let mut i: usize = 0;
    while i < items.len() && i < MAX_DEFINITIONS
        invariant
            items@ == array_items(*ds),
            i <= items@.len(),
            i <= MAX_DEFINITIONS,
            r@.len() == i,
            forall|j: int| 0 <= j < i ==> r@[j]@ == definition_text(items@[j]),
        decreases items@.len() - i,
    {
        let text = match &items[i] {
            Value::Object(o) => text_of(object_get(o, "definition")),
            _ => sentinel_string(),
        };
        r.push(text);
        i = i + 1;
    }
    assert(crate::record::strings_view(r@) =~= first_definitions(array_items(*ds)));
    r
}

/// The record read from an answer body, or why none can be read.
pub fn record_from_body(body: &Value) -> (r: Result<WordInfo, LookupError>)
    ensures
        outcome_view(r) == body_outcome(*body),
        r.is_ok() ==> r.unwrap()@.wf(),
{
    let entries = match body {
        Value::Array(a) => array_elements(a),
        _ => return Err(LookupError::FetchFailed),
    };
    if entries.len() == 0 {
        return Err(LookupError::FetchFailed);
    }
    let entry = match &entries[0] {
        Value::Object(o) => o,
        _ => return Err(LookupError::MalformedResponse),
    };
    let meanings = match object_get(entry, "meanings") {
        Some(Value::Array(ms)) => array_elements(ms),
        _ => return Err(LookupError::MalformedResponse),
    };
    if meanings.len() == 0 {
        return Err(LookupError::MalformedResponse);
    }
    let meaning = match &meanings[0] {
        Value::Object(m) => m,
        _ => return Err(LookupError::MalformedResponse),
    };
    let defs = match object_get(meaning, "definitions") {
        Some(Value::Array(ds)) => ds,
        _ => return Err(LookupError::MalformedResponse),
    };
    let phonetic = text_of(object_get(entry, "phonetic"));
    let part_of_speech = text_of(object_get(meaning, "partOfSpeech"));
    let definitions = definitions_of(defs);
    Ok(WordInfo { phonetic, part_of_speech, definitions })
}

/// The record for `word` from the service's status code and body text.
pub fn record_from_answer(word: &str, status: i32, body: &str) -> (r: Result<WordInfo, LookupError>)
    ensures
        outcome_view(r) == fetch_outcome(word@, status, body@),
        r.is_ok() ==> r.unwrap()@.wf(),
{
    if status == 404 {
        return Err(LookupError::WordNotFound(word.to_owned()));
    }
    if status != 200 {
        return Err(LookupError::FetchFailed);
    }
    match parse_json(body) {
        Some(v) => record_from_body(&v),
        None => Err(LookupError::FetchFailed),
    }
}

} // verus!
