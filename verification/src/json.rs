//! JSON values, as serde_json holds and writes them.

use crate::text::{opt_text, texts};
use vstd::prelude::*;

verus! {

/// `serde_json::Value`, a JSON value.
#[verifier::external_type_specification]
#[verifier::external_body]
pub struct ExternalValue(serde_json::Value);

/// A JSON value.
pub enum Json {
    Null,
    Bool(bool),
    Number(u64),
    Text(Seq<char>),
    Array(Seq<Json>),
    Object(Map<Seq<char>, Json>),
}

/// What a [`serde_json::Value`] holds.
pub uninterp spec fn json_of(value: serde_json::Value) -> Json;

/// How serde_json writes a value over several lines.
pub uninterp spec fn pretty_text(json: Json) -> Seq<char>;

/// What each value holds.
pub open spec fn jsons(v: Seq<serde_json::Value>) -> Seq<Json> {
    v.map_values(|value: serde_json::Value| json_of(value))
}

/// What each field holds.
pub open spec fn fields_of(v: Seq<(String, serde_json::Value)>) -> Seq<(Seq<char>, Json)> {
    v.map_values(|f: (String, serde_json::Value)| (f.0@, json_of(f.1)))
}

/// The object with these fields. A later field takes the place of an earlier one
/// of the same name.
pub open spec fn object(fields: Seq<(Seq<char>, Json)>) -> Map<Seq<char>, Json>
    decreases fields.len(),
{
    if fields.len() == 0 {
        Map::empty()
    } else {
        object(fields.drop_last()).insert(fields.last().0, fields.last().1)
    }
}

/// A text, if it is there, or null.
pub open spec fn text_or_null(t: Option<Seq<char>>) -> Json {
    match t {
        Some(t) => Json::Text(t),
        None => Json::Null,
    }
}

/// A list of texts.
pub open spec fn text_list(v: Seq<Seq<char>>) -> Json {
    Json::Array(v.map_values(|t: Seq<char>| Json::Text(t)))
}

/// `serde_json::Value::Null`.
#[verifier::external_body]
pub(crate) fn json_null() -> (r: serde_json::Value)
    ensures
        json_of(r) == Json::Null,
{
    serde_json::Value::Null
}

/// `serde_json::Value::Bool`.
#[verifier::external_body]
pub(crate) fn json_bool(b: bool) -> (r: serde_json::Value)
    ensures
        json_of(r) == Json::Bool(b),
{
    serde_json::Value::Bool(b)
}

/// `serde_json::Value::from` on a number.
#[verifier::external_body]
pub(crate) fn json_number(n: u64) -> (r: serde_json::Value)
    ensures
        json_of(r) == Json::Number(n),
{
    serde_json::Value::from(n)
}

/// `serde_json::Value::String`.
#[verifier::external_body]
pub(crate) fn json_text(t: &str) -> (r: serde_json::Value)
    ensures
        json_of(r) == Json::Text(t@),
{
    serde_json::Value::String(t.to_owned())
}

/// `serde_json::Value::Array`: the values, in order.
#[verifier::external_body]
pub(crate) fn json_array(values: Vec<serde_json::Value>) -> (r: serde_json::Value)
    ensures
        json_of(r) == Json::Array(jsons(values@)),
{
    serde_json::Value::Array(values)
}

/// `serde_json::Value::Object`, and `serde_json::Map` through `FromIterator`: the
/// fields by their names, where a later one takes the place of an earlier one.
#[verifier::external_body]
pub(crate) fn json_object(fields: Vec<(String, serde_json::Value)>) -> (r: serde_json::Value)
    ensures
        json_of(r) == Json::Object(object(fields_of(fields@))),
{
    serde_json::Value::Object(fields.into_iter().collect())
}

/// `serde_json::to_string_pretty`, which on a value that is held in memory always
/// succeeds. The text rests on what the value holds alone; how it is laid out is
/// not stated.
#[verifier::external_body]
pub(crate) fn pretty(value: &serde_json::Value) -> (r: String)
    ensures
        r@ == pretty_text(json_of(*value)),
{
    serde_json::to_string_pretty(value).unwrap()
}

/// Adds a field.
pub(crate) fn field(
    fields: &mut Vec<(String, serde_json::Value)>,
    name: &str,
    value: serde_json::Value,
)
    ensures
        fields_of(final(fields)@) == fields_of(old(fields)@).push((name@, json_of(value))),
{
    fields.push((name.to_owned(), value));
    proof {
        assert(fields_of(fields@) =~= fields_of(old(fields)@).push((name@, json_of(value))));
    }
}

/// No fields yet.
pub(crate) fn no_fields() -> (r: Vec<(String, serde_json::Value)>)
    ensures
        fields_of(r@) == Seq::<(Seq<char>, Json)>::empty(),
{
    let r: Vec<(String, serde_json::Value)> = Vec::new();
    proof {
        assert(fields_of(r@) =~= Seq::<(Seq<char>, Json)>::empty());
    }
    r
}

/// A text, if it is there, or null.
pub(crate) fn json_opt(t: &Option<String>) -> (r: serde_json::Value)
    ensures
        json_of(r) == text_or_null(opt_text(*t)),
{
    match t {
        Some(t) => json_text(t.as_str()),
        None => json_null(),
    }
}

/// A list of texts.
pub(crate) fn json_texts(v: &Vec<String>) -> (r: serde_json::Value)
    ensures
        json_of(r) == text_list(texts(v@)),
{
    let mut values: Vec<serde_json::Value> = Vec::new();
    let mut i: usize = 0;
    while i < v.len()
        invariant
            i <= v@.len(),
            values@.len() == i,
            forall|j: int| 0 <= j < i ==> json_of(#[trigger] values@[j]) == Json::Text(v@[j]@),
        decreases v@.len() - i,
    {
        values.push(json_text(v[i].as_str()));
        i = i + 1;
    }
    proof {
        assert(jsons(values@) =~= texts(v@).map_values(
            |t: Seq<char>| Json::Text(t),
        ));
    }
    json_array(values)
}

// ---------------------------------------------------------------------------
// What can be relied on
// ---------------------------------------------------------------------------

/// Every field of an object is found by its name, with its value, unless a later one
/// has the same name.
pub proof fn a_field_is_found_by_its_name(fields: Seq<(Seq<char>, Json)>, i: int)
    requires
        0 <= i < fields.len(),
        forall|j: int| i < j < fields.len() ==> (#[trigger] fields[j]).0 != fields[i].0,
    ensures
        object(fields).contains_key(fields[i].0),
        object(fields)[fields[i].0] == fields[i].1,
    decreases fields.len(),
{
    let rest = fields.drop_last();
    if i < rest.len() {
        assert forall|j: int| i < j < rest.len() implies (#[trigger] rest[j]).0 != rest[i].0 by {
            assert(rest[j] == fields[j]);
        }
        a_field_is_found_by_its_name(rest, i);
        assert(fields[fields.len() - 1].0 != fields[i].0);
    }
}

/// An object holds no field that it was not made with.
pub proof fn an_object_holds_its_fields_only(fields: Seq<(Seq<char>, Json)>, name: Seq<char>)
    requires
        forall|j: int| 0 <= j < fields.len() ==> (#[trigger] fields[j]).0 != name,
    ensures
        !object(fields).contains_key(name),
    decreases fields.len(),
{
    if fields.len() > 0 {
        let rest = fields.drop_last();
        assert forall|j: int| 0 <= j < rest.len() implies (#[trigger] rest[j]).0 != name by {
            assert(rest[j] == fields[j]);
        }
        an_object_holds_its_fields_only(rest, name);
        assert(fields[fields.len() - 1].0 != name);
    }
}

/// A list of texts is written as one text for each, in order, and a text that is not
/// there as null.
pub proof fn texts_are_written_one_for_one(v: Seq<Seq<char>>, t: Seq<char>)
    ensures
        text_list(v) matches Json::Array(items) && items.len() == v.len() && forall|i: int|
            0 <= i < v.len() ==> #[trigger] items[i] == Json::Text(v[i]),
        text_or_null(Some(t)) == Json::Text(t),
        text_or_null(None) == Json::Null,
{
}

/// What is held is held one for one.
pub proof fn every_value_is_held(
    v: Seq<serde_json::Value>,
    w: Seq<(String, serde_json::Value)>,
)
    ensures
        jsons(v).len() == v.len(),
        forall|i: int| 0 <= i < v.len() ==> #[trigger] jsons(v)[i] == json_of(v[i]),
        fields_of(w).len() == w.len(),
        forall|i: int| 0 <= i < w.len() ==> #[trigger] fields_of(w)[i] == (w[i].0@, json_of(w[i].1)),
{
}

}
