//! A JSON-like value tree.
//!
//! The persisted settings document is a single named value inside a store
//! document; this module gives the library its own value tree for such
//! documents, together with its mathematical model.

use vstd::prelude::*;

verus! {

/// A JSON-like value: the shape in which the settings object is persisted.
/// Numbers are unsigned integers; the settings schema needs no others.
pub enum JsonValue {
    Null,
    Bool(bool),
    UInt(u64),
    Str(String),
    Arr(Vec<JsonValue>),
    Obj(Vec<(String, JsonValue)>),
}

/// The mathematical model of a [`JsonValue`].
#[verifier::ext_equal]
pub enum Json {
    Null,
    Bool(bool),
    UInt(u64),
    Str(Seq<char>),
    Arr(Seq<Json>),
    Obj(Seq<(Seq<char>, Json)>),
}

/// The model of a JSON value.
pub open spec fn json_model(v: JsonValue) -> Json
    decreases v,
{
    match v {
        JsonValue::Null => Json::Null,
        JsonValue::Bool(b) => Json::Bool(b),
        JsonValue::UInt(n) => Json::UInt(n),
        JsonValue::Str(s) => Json::Str(s@),
        JsonValue::Arr(items) => Json::Arr(items_model(items@)),
        JsonValue::Obj(fields) => Json::Obj(fields_model(fields@)),
    }
}

/// The models of the elements of a JSON array.
pub open spec fn items_model(items: Seq<JsonValue>) -> Seq<Json>
    decreases items,
{
    if items.len() == 0 {
        Seq::empty()
    } else {
        seq![json_model(items[0])] + items_model(items.drop_first())
    }
}

/// The models of the fields of a JSON object, keys in document order.
pub open spec fn fields_model(fields: Seq<(String, JsonValue)>) -> Seq<(Seq<char>, Json)>
    decreases fields,
{
    if fields.len() == 0 {
        Seq::empty()
    } else {
        seq![(fields[0].0@, json_model(fields[0].1))] + fields_model(fields.drop_first())
    }
}

/// `items_model` maps the sequence elementwise.
pub proof fn lemma_items_model(items: Seq<JsonValue>)
    ensures
        items_model(items).len() == items.len(),
        forall|i: int| 0 <= i < items.len() ==> items_model(items)[i] == json_model(items[i]),
    decreases items,
{
    if items.len() > 0 {
        lemma_items_model(items.drop_first());
    }
}

/// `fields_model` maps the sequence elementwise.
pub proof fn lemma_fields_model(fields: Seq<(String, JsonValue)>)
    ensures
        fields_model(fields).len() == fields.len(),
        forall|i: int|
            0 <= i < fields.len() ==> fields_model(fields)[i] == (
            fields[i].0@,
            json_model(fields[i].1),
            ),
    decreases fields,
{
    if fields.len() > 0 {
        lemma_fields_model(fields.drop_first());
    }
}

impl View for JsonValue {
    type V = Json;

    open spec fn view(&self) -> Json {
        json_model(*self)
    }
}

impl DeepView for JsonValue {
    type V = Json;

    open spec fn deep_view(&self) -> Json {
        json_model(*self)
    }
}

} // verus!
