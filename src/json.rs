//! The JSON values of the miniserde crate, as the rest of the library sees them.
use vstd::prelude::*;
use miniserde::json::{Array, Number, Object, Value};

verus! {

/// miniserde's JSON number, carried through unread.
#[verifier::external_type_specification]
#[verifier::external_body]
pub struct ExNumber(Number);

/// miniserde's JSON array; its elements are `array_items`.
#[verifier::external_type_specification]
#[verifier::external_body]
pub struct ExArray(Array);

/// miniserde's JSON object; its members are `object_fields`.
#[verifier::external_type_specification]
#[verifier::external_body]
pub struct ExObject(Object);

/// miniserde's JSON value. Its variants are public and are read as they are
/// declared; what arrays and objects hold is reached through the functions below.
#[verifier::external_type_specification]
pub struct ExValue(Value);

/// The elements of a JSON array, in order.
pub uninterp spec fn array_items(a: Array) -> Seq<Value>;

/// The members of a JSON object, by key.
pub uninterp spec fn object_fields(o: Object) -> Map<Seq<char>, Value>;

/// The value that a JSON text denotes, if the text is well-formed JSON.
pub uninterp spec fn parsed_json(s: Seq<char>) -> Option<Value>;

/// The JSON text written for a value.
pub uninterp spec fn json_text(v: Value) -> Seq<char>;

/// The member of `o` under key `k`, if there is one.
pub open spec fn field(o: Object, k: Seq<char>) -> Option<Value> {
    if object_fields(o).contains_key(k) {
        Some(object_fields(o)[k])
    } else {
        None
    }
}

/// Relies on miniserde::json::from_str: the value of a JSON text, or an error
/// when the text is not JSON; the answer depends on the text alone.
#[verifier::external_body]
pub(crate) fn parse_json(s: &str) -> (r: Option<Value>)
    ensures
        r == parsed_json(s@),
{
    miniserde::json::from_str::<Value>(s).ok()
}

/// Relies on miniserde::json::to_string: the JSON text of a value, which
/// depends on the value alone.
#[verifier::external_body]
pub(crate) fn write_json(v: &Value) -> (r: String)
    ensures
        r@ == json_text(*v),
{
    miniserde::json::to_string(v)
}

/// Relies on `Deref for miniserde::json::Array`: the vector of its elements.
#[verifier::external_body]
pub(crate) fn array_elements(a: &Array) -> (r: &Vec<Value>)
    ensures
        r@ == array_items(*a),
{
    a
}

/// Relies on `FromIterator<Value> for miniserde::json::Array`: an array of the
/// given elements, in order.
#[verifier::external_body]
pub(crate) fn array_of(v: Vec<Value>) -> (r: Array)
    ensures
        array_items(r) == v@,
{
    v.into_iter().collect()
}

/// Relies on `BTreeMap::get` through `Deref for miniserde::json::Object`.
#[verifier::external_body]
pub(crate) fn object_get<'a>(o: &'a Object, k: &str) -> (r: Option<&'a Value>)
    ensures
        r.is_some() == object_fields(*o).contains_key(k@),
        r.is_some() ==> *r.unwrap() == object_fields(*o)[k@],
{
    o.get(k)
}

/// Relies on miniserde::json::Object::new: an object with no members.
#[verifier::external_body]
pub(crate) fn object_new() -> (r: Object)
    ensures
        object_fields(r).dom() == Set::<Seq<char>>::empty(),
{
    Object::new()
}

/// Relies on `BTreeMap::insert` through `DerefMut for miniserde::json::Object`:
/// the key now maps to the value, and other members stay.
#[verifier::external_body]
pub(crate) fn object_insert(o: &mut Object, k: String, v: Value)
    ensures
        object_fields(*final(o)) == object_fields(*old(o)).insert(k@, v),
{
    o.insert(k, v);
}

/// Relies on `BTreeMap::iter` through `Deref for miniserde::json::Object`: each
/// member once, as an owned key and value.
#[verifier::external_body]
pub(crate) fn object_members(o: &Object) -> (r: Vec<(String, Value)>)
    ensures
        forall|i: int|
            0 <= i < r@.len() ==> #[trigger] object_fields(*o).contains_key(r@[i].0@)
                && object_fields(*o)[r@[i].0@] == r@[i].1,
        forall|i: int, j: int|
            0 <= i < j < r@.len() ==> #[trigger] r@[i].0@ != #[trigger] r@[j].0@,
        forall|k: Seq<char>|
            #[trigger] object_fields(*o).contains_key(k) ==> exists|i: int|
                0 <= i < r@.len() && #[trigger] r@[i].0@ == k,
{
    o.iter().map(|(k, v)| (k.clone(), v.clone())).collect()
}

} // verus!
