//! JSON documents, parsed and rendered by `serde_json`.
//!
//! A [`serde_json::Value`] is opaque to the verifier. Contracts speak of the
//! document it stands for, a [`JsonDoc`], and every function here that touches
//! a `Value` is trusted: its contract is believed, not proved.

use vstd::prelude::*;

verus! {

/// The outside document type, carried through verified code as an opaque value.
#[verifier::external_type_specification]
#[verifier::external_body]
pub struct ExValue(serde_json::Value);

/// The mathematical content of a JSON document.
pub enum JsonDoc {
    Null,
    Bool(bool),
    /// A number, by the text that stands for it.
    Number(Seq<char>),
    Text(Seq<char>),
    List(Seq<JsonDoc>),
    Record(Map<Seq<char>, JsonDoc>),
}

impl JsonDoc {
    /// The member `key` of a record; `None` for a missing key and for anything
    /// that is not a record.
    pub open spec fn member(self, key: Seq<char>) -> Option<JsonDoc> {
        match self {
            JsonDoc::Record(fields) => if fields.dom().contains(key) {
                Some(fields[key])
            } else {
                None
            },
            _ => None,
        }
    }

    /// The elements of a list; `None` for anything else.
    pub open spec fn items(self) -> Option<Seq<JsonDoc>> {
        match self {
            JsonDoc::List(items) => Some(items),
            _ => None,
        }
    }

    /// The characters of a string; `None` for anything else.
    pub open spec fn text(self) -> Option<Seq<char>> {
        match self {
            JsonDoc::Text(t) => Some(t),
            _ => None,
        }
    }

    /// The string member `key` of a record, if it has one.
    pub open spec fn text_member(self, key: Seq<char>) -> Option<Seq<char>> {
        match self.member(key) {
            Some(m) => m.text(),
            None => None,
        }
    }
}

/// The document that a `Value` holds.
pub uninterp spec fn doc_of(v: serde_json::Value) -> JsonDoc;

/// What `serde_json::from_slice` makes of a byte string: the document it
/// describes, or `None` where it is not one JSON text.
pub uninterp spec fn parsed(bytes: Seq<u8>) -> Option<JsonDoc>;

/// What `serde_json::to_vec` writes for a document, or `None` where it gives up.
pub uninterp spec fn rendered(doc: JsonDoc) -> Option<Seq<u8>>;

/// The documents held by a sequence of values.
pub open spec fn docs_of(values: Seq<serde_json::Value>) -> Seq<JsonDoc> {
    values.map_values(|v: serde_json::Value| doc_of(v))
}

/// The record that results from entering `fields` one after the other.
pub open spec fn record_of(fields: Seq<(Seq<char>, JsonDoc)>) -> Map<Seq<char>, JsonDoc>
    decreases fields.len(),
{
    if fields.len() == 0 {
        Map::empty()
    } else {
        record_of(fields.drop_last()).insert(fields.last().0, fields.last().1)
    }
}

/// The keys of `fields` are pairwise different.
pub open spec fn distinct_keys(fields: Seq<(String, serde_json::Value)>) -> bool {
    forall|i: int, j: int|
        0 <= i < j < fields.len() ==> (#[trigger] fields[i]).0@ != (#[trigger] fields[j]).0@
}

/// The model of a list of named values.
pub open spec fn named_docs(fields: Seq<(String, serde_json::Value)>) -> Seq<(Seq<char>, JsonDoc)> {
    fields.map_values(|f: (String, serde_json::Value)| (f.0@, doc_of(f.1)))
}

/// A name and a value, as one field of a record.
pub(crate) fn field(name: &str, value: serde_json::Value) -> (f: (String, serde_json::Value))
    ensures
        f.0@ == name@,
        doc_of(f.1) == doc_of(value),
{
    (String::from_str(name), value)
}

/// `serde_json::from_slice` at type `Value`. Trusted: the result is a function
/// of the bytes alone, named [`parsed`]; an error of any kind becomes `None`.
#[verifier::external_body]
pub(crate) fn parse_json(bytes: &[u8]) -> (r: Option<serde_json::Value>)
    ensures
        match r {
            Some(v) => parsed(bytes@) == Some(doc_of(v)),
            None => parsed(bytes@) is None,
        },
{
    serde_json::from_slice::<serde_json::Value>(bytes).ok()
}

/// `serde_json::to_vec` on a `Value`. Trusted: the bytes are a function of the
/// document alone, named [`rendered`]; an error becomes `None`.
#[verifier::external_body]
pub(crate) fn render_json(v: &serde_json::Value) -> (r: Option<Vec<u8>>)
    ensures
        match r {
            Some(bytes) => rendered(doc_of(*v)) == Some(bytes@),
            None => rendered(doc_of(*v)) is None,
        },
{
    serde_json::to_vec(v).ok()
}

/// `Value::get` with a string index. Trusted: it finds the member of an object
/// under that key, and nothing in any other kind of value.
#[verifier::external_body]
pub(crate) fn json_member<'a>(v: &'a serde_json::Value, key: &str) -> (r: Option<&'a serde_json::Value>)
    ensures
        match r {
            Some(m) => doc_of(*v).member(key@) == Some(doc_of(*m)),
            None => doc_of(*v).member(key@) is None,
        },
{
    v.get(key)
}

/// `Value::as_array`. Trusted: it hands out the elements of an array, in order,
/// and `None` for any other kind of value.
#[verifier::external_body]
pub(crate) fn json_items(v: &serde_json::Value) -> (r: Option<&Vec<serde_json::Value>>)
    ensures
        match r {
            Some(items) => doc_of(*v).items() == Some(docs_of(items@)),
            None => doc_of(*v).items() is None,
        },
{
    v.as_array()
}

/// `Value::as_str`. Trusted: it hands out the characters of a string, and
/// `None` for any other kind of value.
#[verifier::external_body]
pub(crate) fn json_text(v: &serde_json::Value) -> (r: Option<&str>)
    ensures
        match r {
            Some(t) => doc_of(*v).text() == Some(t@),
            None => doc_of(*v).text() is None,
        },
{
    v.as_str()
}

/// `Clone` for `Value`. Trusted: the copy holds the same document.
#[verifier::external_body]
pub(crate) fn json_copy(v: &serde_json::Value) -> (r: serde_json::Value)
    ensures
        doc_of(r) == doc_of(*v),
{
    v.clone()
}

/// The variant `Value::Null`.
#[verifier::external_body]
pub(crate) fn json_null() -> (r: serde_json::Value)
    ensures
        doc_of(r) == JsonDoc::Null,
{
    serde_json::Value::Null
}

/// The variant `Value::String`.
#[verifier::external_body]
pub(crate) fn json_string(s: String) -> (r: serde_json::Value)
    ensures
        doc_of(r) == JsonDoc::Text(s@),
{
    serde_json::Value::String(s)
}

/// The variant `Value::Array`.
#[verifier::external_body]
pub(crate) fn json_list(items: Vec<serde_json::Value>) -> (r: serde_json::Value)
    ensures
        doc_of(r) == JsonDoc::List(docs_of(items@)),
{
    serde_json::Value::Array(items)
}

/// The variant `Value::Object`, over a `serde_json::Map` collected from the
/// fields. Trusted for fields with pairwise different keys: each is then a
/// member of the object, and it has no other.
#[verifier::external_body]
pub(crate) fn json_record(fields: Vec<(String, serde_json::Value)>) -> (r: serde_json::Value)
    requires
        distinct_keys(fields@),
    ensures
        doc_of(r) == JsonDoc::Record(record_of(named_docs(fields@))),
{
    serde_json::Value::Object(fields.into_iter().collect())
}

} // verus!
