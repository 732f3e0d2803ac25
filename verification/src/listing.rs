//! What one provider offers: its model identifiers and its raw model records.
//!
//! A provider with configured models offers exactly those. Any other offers
//! what the response to its listing call holds, and nothing where that call
//! failed in any way.

use vstd::prelude::*;
use crate::config::{Config, Provider};
use crate::text::texts;
use crate::json::{
    doc_of, docs_of, field, json_copy, json_items, json_member, json_null, json_record,
    json_string, json_text, named_docs, parse_json, parsed, record_of, JsonDoc,
};
use crate::upstream::{is_success, status_is_success, UpstreamOutcome};

verus! {

/// The identifier of a model record: its member `id`, where that is a string.
pub open spec fn record_id(doc: JsonDoc) -> Option<Seq<char>> {
    doc.text_member("id"@)
}

/// The identifiers of the records that have one, in the records' order.
pub open spec fn ids_in(records: Seq<JsonDoc>) -> Seq<Seq<char>>
    decreases records.len(),
{
    if records.len() == 0 {
        Seq::empty()
    } else {
        match record_id(records.last()) {
            Some(id) => ids_in(records.drop_last()).push(id),
            None => ids_in(records.drop_last()),
        }
    }
}

/// The records of a listing document: the elements of its member `data`,
/// where that is a list.
pub open spec fn listed_records(doc: JsonDoc) -> Seq<JsonDoc> {
    match doc.member("data"@) {
        Some(data) => match data.items() {
            Some(items) => items,
            None => Seq::empty(),
        },
        None => Seq::empty(),
    }
}

/// The records that the outcome of a listing call yields. Only a 2xx response
/// whose body is a JSON document yields any.
pub open spec fn live_records(outcome: UpstreamOutcome) -> Seq<JsonDoc> {
    match outcome {
        UpstreamOutcome::Answered { status, body } => if is_success(status) {
            match parsed(body@) {
                Some(doc) => listed_records(doc),
                None => Seq::empty(),
            }
        } else {
            Seq::empty()
        },
        _ => Seq::empty(),
    }
}

/// The record that stands for a configured model.
pub open spec fn static_record(id: Seq<char>) -> JsonDoc {
    JsonDoc::Record(
        map![
            "id"@ => JsonDoc::Text(id),
            "object"@ => JsonDoc::Text("model"@),
            "created"@ => JsonDoc::Null,
            "owned_by"@ => JsonDoc::Null,
        ],
    )
}

/// The records that stand for a list of configured models.
pub open spec fn static_records(ids: Seq<Seq<char>>) -> Seq<JsonDoc> {
    ids.map_values(|id: Seq<char>| static_record(id))
}

impl Provider {
    /// The model identifiers that this provider offers, given how its listing
    /// call ended.
    pub open spec fn model_ids(&self, outcome: UpstreamOutcome) -> Seq<Seq<char>> {
        match self.models {
            Some(configured) => texts(configured@),
            None => ids_in(live_records(outcome)),
        }
    }

    /// The model records that this provider offers, given how its listing call
    /// ended.
    pub open spec fn raw_records(&self, outcome: UpstreamOutcome) -> Seq<JsonDoc> {
        match self.models {
            Some(configured) => static_records(texts(configured@)),
            None => live_records(outcome),
        }
    }
}

/// A provider with configured models offers exactly those, however a listing
/// call would have ended, and no listing call is asked of it.
pub proof fn configured_models_need_no_call(provider: &Provider, outcome: UpstreamOutcome)
    requires
        provider.models is Some,
    ensures
        provider.listing_call() is None,
        provider.model_ids(outcome) == texts(provider.models->0@),
        provider.raw_records(outcome) == static_records(texts(provider.models->0@)),
{
}

/// A listing call that brought no response, or one outside the 2xx class, or a
/// body that is no JSON document, makes a provider offer nothing.
pub proof fn failed_listing_offers_nothing(provider: &Provider, outcome: UpstreamOutcome)
    requires
        provider.models is None,
        match outcome {
            UpstreamOutcome::Answered { status, body } => !is_success(status) || parsed(body@) is None,
            _ => true,
        },
    ensures
        provider.model_ids(outcome) == Seq::<Seq<char>>::empty(),
        provider.raw_records(outcome) == Seq::<JsonDoc>::empty(),
{
}

/// The record of a configured model carries the model's identifier.
pub proof fn static_record_has_id(id: Seq<char>)
    ensures
        record_id(static_record(id)) == Some(id),
{
    reveal_strlit("id");
    reveal_strlit("object");
    reveal_strlit("created");
    reveal_strlit("owned_by");
    assert("id"@[0] != "object"@[0]);
    assert("id"@[0] != "created"@[0]);
    assert("id"@[0] != "owned_by"@[0]);
}

/// The identifiers that a provider offers are those of the records that it
/// offers.
pub proof fn records_and_ids_agree(provider: &Provider, outcome: UpstreamOutcome)
    ensures
        ids_in(provider.raw_records(outcome)) == provider.model_ids(outcome),
{
    if let Some(configured) = provider.models {
        static_records_ids(texts(configured@));
    }
}

proof fn static_records_ids(ids: Seq<Seq<char>>)
    ensures
        ids_in(static_records(ids)) == ids,
    decreases ids.len(),
{
    if ids.len() > 0 {
        static_records_ids(ids.drop_last());
        static_record_has_id(ids.last());
        assert(static_records(ids).drop_last() =~= static_records(ids.drop_last()));
        assert(ids_in(static_records(ids)) =~= ids);
    } else {
        assert(ids_in(static_records(ids)) =~= ids);
    }
}

/// Builds the record that stands for a configured model.
pub fn make_static_record(id: &str) -> (record: serde_json::Value)
    ensures
        doc_of(record) == static_record(id@),
{
    let mut fields: Vec<(String, serde_json::Value)> = Vec::new();
    fields.push(field("id", json_string(String::from_str(id))));
    fields.push(field("object", json_string(String::from_str("model"))));
    fields.push(field("created", json_null()));
    fields.push(field("owned_by", json_null()));
    proof {
        reveal_strlit("id");
        reveal_strlit("object");
        reveal_strlit("created");
        reveal_strlit("owned_by");
        assert("id"@[0] != "object"@[0]);
        assert("id"@[0] != "created"@[0]);
        assert("id"@[0] != "owned_by"@[0]);
        assert("object"@[1] != "created"@[1]);
        assert("object"@[1] != "owned_by"@[1]);
        assert("created"@[0] != "owned_by"@[0]);
        reveal_with_fuel(record_of, 5);
        let named = named_docs(fields@);
        assert(named.drop_last().drop_last().drop_last().drop_last().len() == 0);
        assert(record_of(named) =~= static_record(id@)->Record_0);
    }
    json_record(fields)
}

/// The elements of a listing document's `data` array.
fn listed_items(doc: &serde_json::Value) -> (found: Option<&Vec<serde_json::Value>>)
    ensures
        match found {
            Some(items) => listed_records(doc_of(*doc)) == docs_of(items@),
            None => listed_records(doc_of(*doc)) == Seq::<JsonDoc>::empty(),
        },
{
    match json_member(doc, "data") {
        Some(data) => json_items(data),
        None => None,
    }
}

/// The items that the outcome of a listing call yields, parsed.
fn live_document(outcome: &UpstreamOutcome) -> (doc: Option<serde_json::Value>)
    ensures
        match doc {
            Some(d) => live_records(*outcome) == listed_records(doc_of(d)),
            None => live_records(*outcome) == Seq::<JsonDoc>::empty(),
        },
{
    match outcome {
        UpstreamOutcome::Answered { status, body } => {
            if status_is_success(*status) {
                parse_json(body.as_slice())
            } else {
                None
            }
        },
        _ => None,
    }
}

/// The identifier of a record, if it has a string `id`.
pub fn id_of(record: &serde_json::Value) -> (id: Option<String>)
    ensures
        match id {
            Some(s) => record_id(doc_of(*record)) == Some(s@),
            None => record_id(doc_of(*record)) is None,
        },
{
    match json_member(record, "id") {
        Some(member) => match json_text(member) {
            Some(t) => Some(String::from_str(t)),
            None => None,
        },
        None => None,
    }
}

/// The identifiers of the given records, skipping those without one.
fn collect_ids(records: &Vec<serde_json::Value>) -> (ids: Vec<String>)
    ensures
        texts(ids@) == ids_in(docs_of(records@)),
{
    let mut ids: Vec<String> = Vec::new();
    let mut i: usize = 0;
    assert(docs_of(records@).take(0) =~= Seq::<JsonDoc>::empty());
    assert(texts(ids@) =~= Seq::<Seq<char>>::empty());
    while i < records.len()
        invariant
            i <= records.len(),
            texts(ids@) == ids_in(docs_of(records@).take(i as int)),
        decreases records.len() - i,
    {
        let ghost before = texts(ids@);
        proof {
            let upto = docs_of(records@).take(i + 1);
            assert(upto.drop_last() =~= docs_of(records@).take(i as int));
            assert(upto.last() == doc_of(records@[i as int]));
        }
        match id_of(&records[i]) {
            Some(id) => {
                ids.push(id);
                assert(texts(ids@) =~= before.push(id@));
            },
            None => {},
        }
        i += 1;
    }
    assert(docs_of(records@).take(records.len() as int) =~= docs_of(records@));
    ids
}

/// Copies a list of values.
fn copy_values(records: &Vec<serde_json::Value>) -> (copies: Vec<serde_json::Value>)
    ensures
        docs_of(copies@) == docs_of(records@),
{
    let mut copies: Vec<serde_json::Value> = Vec::new();
    let mut i: usize = 0;
    while i < records.len()
        invariant
            i <= records.len(),
            copies.len() == i,
            forall|k: int| 0 <= k < i ==> doc_of(#[trigger] copies@[k]) == doc_of(records@[k]),
        decreases records.len() - i,
    {
        copies.push(json_copy(&records[i]));
        i += 1;
    }
    assert(docs_of(copies@) =~= docs_of(records@));
    copies
}

/// Copies a list of strings.
pub fn copy_texts(list: &Vec<String>) -> (copies: Vec<String>)
    ensures
        copies@ == list@,
{
    let mut copies: Vec<String> = Vec::new();
    let mut i: usize = 0;
    while i < list.len()
        invariant
            i <= list.len(),
            copies@ == list@.take(i as int),
        decreases list.len() - i,
    {
        copies.push(list[i].clone());
        assert(copies@ =~= list@.take(i + 1));
        i += 1;
    }
    assert(list@.take(list.len() as int) =~= list@);
    copies
}

impl Config {
    /// The model identifiers that `provider` offers, given how its listing call
    /// ended. Configured models are returned as they are and `outcome` is not
    /// looked at; otherwise the identifiers come from the listing response, and
    /// every failure yields the empty list.
    pub fn fetch_models_from_provider(
        &self,
        provider: &Provider,
        outcome: &UpstreamOutcome,
    ) -> (models: Vec<String>)
        ensures
            texts(models@) == provider.model_ids(*outcome),
    {
        if let Some(configured) = &provider.models {
            return copy_texts(configured);
        }
        match live_document(outcome) {
            Some(doc) => match listed_items(&doc) {
                Some(items) => collect_ids(items),
                None => {
                    let none: Vec<String> = Vec::new();
                    assert(texts(none@) =~= Seq::<Seq<char>>::empty());
                    none
                },
            },
            None => {
                let none: Vec<String> = Vec::new();
                assert(texts(none@) =~= Seq::<Seq<char>>::empty());
                none
            },
        }
    }
}

/// The records that stand for a list of configured models.
fn make_static_records(configured: &Vec<String>) -> (records: Vec<serde_json::Value>)
    ensures
        docs_of(records@) == static_records(texts(configured@)),
{
    let mut records: Vec<serde_json::Value> = Vec::new();
    let mut i: usize = 0;
    while i < configured.len()
        invariant
            i <= configured.len(),
            records.len() == i,
            forall|k: int| 0 <= k < i ==> doc_of(#[trigger] records@[k]) == static_record(configured@[k]@),
        decreases configured.len() - i,
    {
        records.push(make_static_record(configured[i].as_str()));
        i += 1;
    }
    assert(docs_of(records@) =~= static_records(texts(configured@)));
    records
}

impl Config {
    /// The model records that `provider` offers, given how its listing call ended.
    /// Configured models become minimal records and `outcome` is not looked at;
    /// otherwise the records of the listing response are handed on whole, and
    /// every failure yields the empty list.
    pub fn fetch_raw_models_from_provider(
        &self,
        provider: &Provider,
        outcome: &UpstreamOutcome,
    ) -> (records: Vec<serde_json::Value>)
        ensures
            docs_of(records@) == provider.raw_records(*outcome),
    {
        if let Some(configured) = &provider.models {
            return make_static_records(configured);
        }
        match live_document(outcome) {
            Some(doc) => match listed_items(&doc) {
                Some(items) => copy_values(items),
                None => {
                    let none: Vec<serde_json::Value> = Vec::new();
                    assert(docs_of(none@) =~= Seq::<JsonDoc>::empty());
                    none
                },
            },
            None => {
                let none: Vec<serde_json::Value> = Vec::new();
                assert(docs_of(none@) =~= Seq::<JsonDoc>::empty());
                none
            },
        }
    }
}

} // verus!
