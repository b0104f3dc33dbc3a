//! The on-disk form of the cache store: a JSON object from each word to an
//! object with its `phonetic`, `partOfSpeech` and `definitions`.
use vstd::prelude::*;
use miniserde::json::{Object, Value};
use crate::dictionary::{distinct_words, entries_map, lemma_entries_map, Dictionary};
use crate::json::{
    array_elements, array_items, array_of, field, json_text, object_fields, object_get,
    object_insert, object_members, object_new, parse_json, parsed_json, write_json,
};
use crate::record::{strings_view, RecordModel, WordInfo, MAX_DEFINITIONS};

verus! {

/// `v` is a text value holding `t`.
pub open spec fn is_text(v: Option<Value>, t: Seq<char>) -> bool {
    match v {
        Some(Value::String(s)) => s@ == t,
        _ => false,
    }
}

/// `v` is an array of text values holding `ts`, in order.
pub open spec fn is_text_array(v: Option<Value>, ts: Seq<Seq<char>>) -> bool {
    match v {
        Some(Value::Array(a)) => {
            &&& array_items(a).len() == ts.len()
            &&& forall|i: int| 0 <= i < ts.len() ==> is_text(Some(#[trigger] array_items(a)[i]), ts[i])
        },
        _ => false,
    }
}

/// `v` is the stored form of record `r`.
pub open spec fn encodes_record(v: Value, r: RecordModel) -> bool {
    match v {
        Value::Object(o) => {
            &&& object_fields(o).dom() == set!["phonetic"@, "partOfSpeech"@, "definitions"@]
            &&& is_text(field(o, "phonetic"@), r.phonetic)
            &&& is_text(field(o, "partOfSpeech"@), r.part_of_speech)
            &&& is_text_array(field(o, "definitions"@), r.definitions)
        },
        _ => false,
    }
}

/// `v` is the stored form of the store whose contents are `m`.
pub open spec fn encodes(v: Value, m: Map<Seq<char>, RecordModel>) -> bool {
    match v {
        Value::Object(o) => {
            &&& object_fields(o).dom() == m.dom()
            &&& forall|k: Seq<char>| #[trigger] m.contains_key(k) ==> encodes_record(object_fields(o)[k], m[k])
        },
        _ => false,
    }
}

/// The text held by a text value.
pub open spec fn text_value(v: Value) -> Seq<char> {
    match v {
        Value::String(s) => s@,
        _ => Seq::empty(),
    }
}

/// The texts held by a list of text values.
pub open spec fn texts_of(items: Seq<Value>) -> Seq<Seq<char>> {
    items.map_values(|x: Value| text_value(x))
}

/// The record read back from a stored value, if it has the stored form.
pub open spec fn record_of_value(v: Value) -> Option<RecordModel> {
    match v {
        Value::Object(o) => match (
            field(o, "phonetic"@),
            field(o, "partOfSpeech"@),
            field(o, "definitions"@),
        ) {
            (Some(Value::String(p)), Some(Value::String(s)), Some(Value::Array(a))) => {
                if array_items(a).len() <= MAX_DEFINITIONS && forall|i: int|
                    0 <= i < array_items(a).len() ==> #[trigger] array_items(a)[i] is String {
                    Some(
                        RecordModel {
                            phonetic: p@,
                            part_of_speech: s@,
                            definitions: texts_of(array_items(a)),
                        },
                    )
                } else {
                    None
                }
            },
            _ => None,
        },
        _ => None,
    }
}

/// The store read back from a stored value, if every member has the stored
/// form of a record.
pub open spec fn dictionary_of_value(v: Value) -> Option<Map<Seq<char>, RecordModel>> {
    match v {
        Value::Object(o) => if forall|k: Seq<char>| #[trigger] object_fields(o).contains_key(k)
            ==> record_of_value(object_fields(o)[k]) is Some {
            Some(
                Map::new(
                    |k: Seq<char>| object_fields(o).contains_key(k),
                    |k: Seq<char>| record_of_value(object_fields(o)[k])->Some_0,
                ),
            )
        } else {
            None
        },
        _ => None,
    }
}

/// The store read from the text of a cache file: empty where the text is not
/// the stored form of a store.
pub open spec fn loaded(text: Seq<char>) -> Map<Seq<char>, RecordModel> {
    match parsed_json(text) {
        Some(v) => match dictionary_of_value(v) {
            Some(m) => m,
            None => Map::empty(),
        },
        None => Map::empty(),
    }
}

/// Reading back the stored form of a record gives that record.
pub proof fn lemma_record_round_trip(v: Value, r: RecordModel)
    requires
        r.wf(),
        encodes_record(v, r),
    ensures
        record_of_value(v) == Some(r),
{
    if let Value::Object(o) = v {
        if let Some(Value::Array(a)) = field(o, "definitions"@) {
            assert forall|i: int| 0 <= i < array_items(a).len() implies #[trigger] array_items(a)[i] is String by {
                assert(is_text(Some(array_items(a)[i]), r.definitions[i]));
            }
            assert forall|i: int| 0 <= i < array_items(a).len() implies
                #[trigger] texts_of(array_items(a))[i] == r.definitions[i] by {
                assert(is_text(Some(array_items(a)[i]), r.definitions[i]));
            }
            assert(texts_of(array_items(a)) =~= r.definitions);
        }
    }
}

/// Reading back the stored form of a store gives a store equal to it.
pub proof fn lemma_store_round_trip(v: Value, m: Map<Seq<char>, RecordModel>)
    requires
        forall|k: Seq<char>| #[trigger] m.contains_key(k) ==> m[k].wf(),
        encodes(v, m),
    ensures
        dictionary_of_value(v) == Some(m),
{
    if let Value::Object(o) = v {
        assert forall|k: Seq<char>| #[trigger] object_fields(o).contains_key(k) implies
            record_of_value(object_fields(o)[k]) == Some(m[k]) by {
            assert(m.contains_key(k));
            lemma_record_round_trip(object_fields(o)[k], m[k]);
        }
        let back = Map::new(
            |k: Seq<char>| object_fields(o).contains_key(k),
            |k: Seq<char>| record_of_value(object_fields(o)[k])->Some_0,
        );
        assert(back =~= m);
    }
}

fn text_array(v: &Vec<String>) -> (r: Value)
    ensures
        is_text_array(Some(r), strings_view(v@)),
{
    let mut items: Vec<Value> = Vec::new();
    let mut i: usize = 0;
    while i < v.len()
        invariant
            i <= v@.len(),
            items@.len() == i,
            forall|j: int| 0 <= j < i ==> is_text(Some(#[trigger] items@[j]), v@[j]@),
        decreases v@.len() - i,
    {
        items.push(Value::String(v[i].clone()));
        i = i + 1;
    }
    let a = array_of(items);
    assert forall|j: int| 0 <= j < v@.len() implies is_text(
        Some(#[trigger] array_items(a)[j]),
        strings_view(v@)[j],
    ) by {
        assert(is_text(Some(items@[j]), v@[j]@));
    }
    Value::Array(a)
}

/// The stored form of a record.
pub fn record_to_value(w: &WordInfo) -> (r: Value)
    ensures
        encodes_record(r, w@),
{
    proof {
        reveal_strlit("phonetic");
        reveal_strlit("partOfSpeech");
        reveal_strlit("definitions");
        assert("phonetic"@.len() == 8 && "partOfSpeech"@.len() == 12 && "definitions"@.len() == 11);
    }
    let mut o = object_new();
    object_insert(&mut o, "phonetic".to_owned(), Value::String(w.phonetic.clone()));
    object_insert(&mut o, "partOfSpeech".to_owned(), Value::String(w.part_of_speech.clone()));
    object_insert(&mut o, "definitions".to_owned(), text_array(&w.definitions));
    assert(object_fields(o).dom() =~= set!["phonetic"@, "partOfSpeech"@, "definitions"@]);
    Value::Object(o)
}

fn text_of_value(v: Option<&Value>) -> (r: Option<String>)
    ensures
        r.is_some() == (match v {
            Some(Value::String(_)) => true,
            _ => false,
        }),
        r.is_some() ==> is_text(Some(*v.unwrap()), r.unwrap()@),
{
    match v {
        Some(Value::String(s)) => Some(s.clone()),
        _ => None,
    }
}

/// The record read back from its stored form, if `v` has that form.
pub fn record_from_value(v: &Value) -> (r: Option<WordInfo>)
    ensures
        r.is_some() == record_of_value(*v).is_some(),
        r.is_some() ==> record_of_value(*v) == Some(r.unwrap()@),
{
    let o = match v {
        Value::Object(o) => o,
        _ => return None,
    };
    let phonetic = match text_of_value(object_get(o, "phonetic")) {
        Some(s) => s,
        None => return None,
    };
    let part_of_speech = match text_of_value(object_get(o, "partOfSpeech")) {
        Some(s) => s,
        None => return None,
    };
    let a = match object_get(o, "definitions") {
        Some(Value::Array(a)) => a,
        _ => return None,
    };
    let items = array_elements(a);
    if items.len() > MAX_DEFINITIONS {
        return None;
    }
    let mut definitions: Vec<String> = Vec::new();
    let mut i: usize = 0;
    while i < items.len()
        invariant
            items@ == array_items(*a),
            *v == Value::Object(*o),
            is_text(field(*o, "phonetic"@), phonetic@),
            is_text(field(*o, "partOfSpeech"@), part_of_speech@),
            field(*o, "definitions"@) == Some(Value::Array(*a)),
            items@.len() <= MAX_DEFINITIONS,
            i <= items@.len(),
            definitions@.len() == i,
            forall|j: int| 0 <= j < i ==> #[trigger] items@[j] is String,
            forall|j: int| 0 <= j < i ==> definitions@[j]@ == text_value(#[trigger] items@[j]),
        decreases items@.len() - i,
    {
        match &items[i] {
            Value::String(s) => definitions.push(s.clone()),
            _ => {
                assert(!(array_items(*a)[i as int] is String));
                return None;
            },
        }
        i = i + 1;
    }
    let r = WordInfo { phonetic, part_of_speech, definitions };
    assert(strings_view(r.definitions@) =~= texts_of(array_items(*a)));
    Some(r)
}

impl Dictionary {
    /// The stored form of the whole store.
    pub fn to_value(&self) -> (r: Value)
        requires
            self.wf(),
        ensures
            encodes(r, self@),
    {
        let entries = self.entries();
        let mut o = object_new();
        let mut i: usize = 0;
        while i < entries.len()
            invariant
                distinct_words(entries@),
                entries_map(entries@) == self@,
                i <= entries@.len(),
                object_fields(o).dom() == entries_map(entries@.take(i as int)).dom(),
                forall|k: Seq<char>| #[trigger] entries_map(entries@.take(i as int)).contains_key(k)
                    ==> encodes_record(object_fields(o)[k], entries_map(entries@.take(i as int))[k]),
            decreases entries@.len() - i,
        {
            let ghost before = entries_map(entries@.take(i as int));
            let v = record_to_value(&entries[i].1);
            object_insert(&mut o, entries[i].0.clone(), v);
            i = i + 1;
            assert(entries@.take(i as int).drop_last() == entries@.take(i - 1));
            assert(entries_map(entries@.take(i as int)) == before.insert(
                entries@[i - 1].0@,
                entries@[i - 1].1@,
            ));
            assert(object_fields(o).dom() =~= entries_map(entries@.take(i as int)).dom());
        }
        assert(entries@.take(entries@.len() as int) == entries@);
        Value::Object(o)
    }

    /// The store read back from its stored form, if `v` has that form.
    pub fn from_value(v: &Value) -> (r: Option<Dictionary>)
        ensures
            r.is_some() == dictionary_of_value(*v).is_some(),
            r.is_some() ==> r.unwrap().wf() && dictionary_of_value(*v) == Some(r.unwrap()@),
    {
        let o = match v {
            Value::Object(o) => o,
            _ => return None,
        };
        let members = object_members(o);
        let mut entries: Vec<(String, WordInfo)> = Vec::new();
        let mut i: usize = 0;
        while i < members.len()
            invariant
                *v == Value::Object(*o),
                i <= members@.len(),
                entries@.len() == i,
                forall|j: int| 0 <= j < members@.len() ==> #[trigger] object_fields(*o).contains_key(members@[j].0@)
                    && object_fields(*o)[members@[j].0@] == members@[j].1,
                forall|a: int, b: int| 0 <= a < b < members@.len() ==> #[trigger] members@[a].0@ != #[trigger] members@[b].0@,
                forall|j: int| 0 <= j < i ==> (#[trigger] entries@[j]).0@ == members@[j].0@
                    && record_of_value(members@[j].1) == Some(entries@[j].1@),
            decreases members@.len() - i,
        {
            match record_from_value(&members[i].1) {
                Some(w) => entries.push((members[i].0.clone(), w)),
                None => {
                    assert(object_fields(*o).contains_key(members@[i as int].0@));
                    assert(record_of_value(object_fields(*o)[members@[i as int].0@]) is None);
                    return None;
                },
            }
            i = i + 1;
        }
        proof {
            assert forall|a: int, b: int| 0 <= a < b < entries@.len() implies #[trigger] entries@[a].0@
                != #[trigger] entries@[b].0@ by {
                assert(members@[a].0@ != members@[b].0@);
            }
            lemma_entries_map(entries@);
            assert forall|k: Seq<char>| #[trigger] object_fields(*o).contains_key(k) implies
                record_of_value(object_fields(*o)[k]) is Some && entries_map(entries@).contains_key(k)
                && entries_map(entries@)[k] == record_of_value(object_fields(*o)[k])->Some_0 by {
                let j = choose|j: int| 0 <= j < members@.len() && #[trigger] members@[j].0@ == k;
                assert(entries@[j].0@ == k);
            }
            assert forall|j: int| 0 <= j < entries@.len() implies (#[trigger] entries@[j]).1@.wf() by {
                assert(record_of_value(members@[j].1) == Some(entries@[j].1@));
            }
            let back = Map::new(
                |k: Seq<char>| object_fields(*o).contains_key(k),
                |k: Seq<char>| record_of_value(object_fields(*o)[k])->Some_0,
            );
            assert(back =~= entries_map(entries@));
        }
        Some(Dictionary::from_entries(entries))
    }
}

/// The store read from the text of a cache file; a text that is not the
/// stored form of a store gives an empty store.
pub fn load(text: &str) -> (r: Dictionary)
    ensures
        r.wf(),
        r@ == loaded(text@),
{
    match parse_json(text) {
        Some(v) => match Dictionary::from_value(&v) {
            Some(d) => d,
            None => Dictionary::new(),
        },
        None => Dictionary::new(),
    }
}

/// The text of the cache file that holds the whole store.
pub fn save(d: &Dictionary) -> (r: String)
    requires
        d.wf(),
    ensures
        exists|v: Value| encodes(v, d@) && r@ == json_text(v),
{
    let v = d.to_value();
    write_json(&v)
}

} // verus!
