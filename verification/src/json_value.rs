//! JSON documents from bytes and to bytes.

use vstd::prelude::*;

use crate::json::{
    item_views, json_view, json_wf, lemma_entries_are_members, lemma_items_wf, lemma_list_view,
    lemma_object_view, member_views, members_of, put_member, Json, JsonView,
};
use crate::ordered_map::{OrderedKey, OrderedMap};
use crate::text::{decimal, signed_decimal};

verus! {

/// A document as the JSON library holds it.
#[verifier::external_type_specification]
#[verifier::external_body]
pub struct ExValue(serde_json::Value);

/// What a value of the JSON library says. A number is the text that it is
/// written as.
pub uninterp spec fn value_document(value: serde_json::Value) -> JsonView;

/// The document that some bytes hold, if they hold one.
pub uninterp spec fn json_document(bytes: Seq<u8>) -> Option<JsonView>;

/// The bytes that a document is written as.
pub uninterp spec fn json_bytes(document: JsonView) -> Seq<u8>;

/// `serde_json::from_slice` into a value: whether it succeeds, and what the
/// value says, depends on the bytes alone.
#[verifier::external_body]
fn read_value(bytes: &[u8]) -> (result: Result<serde_json::Value, serde_json::Error>)
    ensures
        match json_document(bytes@) {
            Some(document) => result matches Ok(value) && value_document(value) == document,
            None => result is Err,
        },
{
    serde_json::from_slice(bytes)
}

/// `serde_json::to_vec` on a value: it does not fail, and what it writes
/// depends on what the value says alone.
#[verifier::external_body]
fn write_value(value: &serde_json::Value) -> (result: Result<Vec<u8>, serde_json::Error>)
    ensures
        result is Ok,
        result->Ok_0@ == json_bytes(value_document(*value)),
{
    serde_json::to_vec(value)
}

/// `serde_json::Value::from` on an unsigned number: the number in decimal.
#[verifier::external_body]
fn unsigned_value(number: u64) -> (value: serde_json::Value)
    ensures
        value_document(value) == JsonView::Number(decimal(number as nat)),
{
    serde_json::Value::from(number)
}

/// `serde_json::Value::from` on a signed number: the number in decimal.
#[verifier::external_body]
fn signed_value(number: i64) -> (value: serde_json::Value)
    ensures
        value_document(value) == JsonView::Number(signed_decimal(number as int)),
{
    serde_json::Value::from(number)
}

/// The clone of a `serde_json::Value` says the same.
#[verifier::external_body]
pub(crate) fn copy_value(value: &serde_json::Value) -> (copy: serde_json::Value)
    ensures
        value_document(copy) == value_document(*value),
{
    value.clone()
}

/// A value of the JSON library, opened by one level.
pub enum OpenValue<'a> {
    Null,
    Bool(bool),
    Number,
    Text(&'a String),
    List(&'a Vec<serde_json::Value>),
    Object(Vec<(&'a String, &'a serde_json::Value)>),
}

pub open spec fn value_documents(values: Seq<serde_json::Value>) -> Seq<JsonView> {
    values.map_values(|value: serde_json::Value| value_document(value))
}

pub open spec fn lent_documents(entries: Seq<(&String, &serde_json::Value)>) -> Seq<
    (Seq<char>, JsonView),
> {
    entries.map_values(
        |entry: (&String, &serde_json::Value)| (entry.0@, value_document(*entry.1)),
    )
}

/// Every name occurs once.
pub open spec fn names_differ(entries: Seq<(Seq<char>, JsonView)>) -> bool {
    forall|i: int, j: int|
        0 <= i < j < entries.len() ==> (#[trigger] entries[i]).0 != (#[trigger] entries[j]).0
}

/// The parts of a value are those of what it says.
pub open spec fn opens(document: JsonView, parts: OpenValue) -> bool {
    match parts {
        OpenValue::Null => document == JsonView::Null,
        OpenValue::Bool(value) => document == JsonView::Bool(value),
        OpenValue::Number => document is Number,
        OpenValue::Text(text) => document == JsonView::Text(text@),
        OpenValue::List(items) => document == JsonView::List(value_documents(items@)),
        OpenValue::Object(entries) => document == JsonView::Object(
            members_of(lent_documents(entries@)),
        ) && names_differ(lent_documents(entries@)),
    }
}

/// Tells the variants of a `serde_json::Value` apart. The entries of a
/// `serde_json::Map` are its members, each name once.
#[verifier::external_body]
fn open_value(value: &serde_json::Value) -> (parts: OpenValue<'_>)
    ensures
        opens(value_document(*value), parts),
{
    match value {
        serde_json::Value::Null => OpenValue::Null,
        serde_json::Value::Bool(value) => OpenValue::Bool(*value),
        serde_json::Value::Number(_) => OpenValue::Number,
        serde_json::Value::String(text) => OpenValue::Text(text),
        serde_json::Value::Array(items) => OpenValue::List(items),
        serde_json::Value::Object(members) => OpenValue::Object(members.iter().collect()),
    }
}

/// The parts of a value of the JSON library that is to be made.
pub enum ValueParts {
    Null,
    Bool(bool),
    Text(String),
    List(Vec<serde_json::Value>),
    Object(Vec<(String, serde_json::Value)>),
}

pub open spec fn given_documents(entries: Seq<(String, serde_json::Value)>) -> Seq<
    (Seq<char>, JsonView),
> {
    entries.map_values(|entry: (String, serde_json::Value)| (entry.0@, value_document(entry.1)))
}

/// What a value made of some parts says.
pub open spec fn parts_document(parts: ValueParts) -> JsonView {
    match parts {
        ValueParts::Null => JsonView::Null,
        ValueParts::Bool(value) => JsonView::Bool(value),
        ValueParts::Text(text) => JsonView::Text(text@),
        ValueParts::List(items) => JsonView::List(value_documents(items@)),
        ValueParts::Object(entries) => JsonView::Object(members_of(given_documents(entries@))),
    }
}

/// Makes a `serde_json::Value` of its parts; the members of an object, each
/// name once, are collected into a `serde_json::Map`.
#[verifier::external_body]
fn make_value(parts: ValueParts) -> (value: serde_json::Value)
    requires
        parts matches ValueParts::Object(entries) ==> names_differ(given_documents(entries@)),
    ensures
        value_document(value) == parts_document(parts),
{
    match parts {
        ValueParts::Null => serde_json::Value::Null,
        ValueParts::Bool(value) => serde_json::Value::Bool(value),
        ValueParts::Text(text) => serde_json::Value::String(text),
        ValueParts::List(items) => serde_json::Value::Array(items),
        ValueParts::Object(entries) => serde_json::Value::Object(entries.into_iter().collect()),
    }
}

proof fn lemma_members_of(entries: Seq<(Seq<char>, JsonView)>, index: int)
    requires
        names_differ(entries),
        0 <= index < entries.len(),
    ensures
        members_of(entries).dom().finite(),
        members_of(entries).contains_key(entries[index].0),
        members_of(entries)[entries[index].0] == entries[index].1,
    decreases entries.len(),
{
    let before = entries.drop_last();
    assert(names_differ(before)) by {
        assert forall|i: int, j: int| 0 <= i < j < before.len() implies (#[trigger] before[i]).0
            != (#[trigger] before[j]).0 by {
            assert(entries[i].0 != entries[j].0);
        }
    }
    lemma_members_finite(before);
    if index < before.len() {
        lemma_members_of(before, index);
        assert(entries[index].0 != entries[entries.len() - 1].0);
    }
}

proof fn lemma_members_finite(entries: Seq<(Seq<char>, JsonView)>)
    ensures
        members_of(entries).dom().finite(),
    decreases entries.len(),
{
    if entries.len() > 0 {
        lemma_members_finite(entries.drop_last());
    }
}

/// A value of the JSON library as a document.
fn from_value(value: &serde_json::Value) -> (json: Json)
    ensures
        json_wf(json),
        json_view(json) == value_document(*value),
    decreases value_document(*value),
{
    let ghost document = value_document(*value);
    match open_value(value) {
        OpenValue::Null => Json::Null,
        OpenValue::Bool(value) => Json::Bool(value),
        OpenValue::Number => Json::Number(copy_value(value)),
        OpenValue::Text(text) => Json::Text(text.clone()),
        OpenValue::List(values) => {
            let mut items: Vec<Json> = Vec::new();
            let mut index: usize = 0;
            while index < values.len()
                invariant
                    index <= values.len(),
                    document == value_document(*value),
                    document == JsonView::List(value_documents(values@)),
                    items@.len() == index,
                    forall|i: int|
                        0 <= i < index ==> json_wf(#[trigger] items@[i]) && json_view(items@[i])
                            == value_document(values@[i]),
                decreases values.len() - index,
            {
                proof {
                    let listed = value_documents(values@);
                    assert(listed[index as int] == value_document(values@[index as int]));
                    assert(decreases_to!(document => document->List_0));
                    assert(decreases_to!(listed => listed[index as int]));
                }
                items.push(from_value(&values[index]));
                index += 1;
            }
            proof {
                lemma_items_wf(items);
                lemma_list_view(items);
                assert(item_views(items@) =~= value_documents(values@));
            }
            Json::List(items)
        },
        OpenValue::Object(entries) => {
            let ghost all = lent_documents(entries@);
            let mut members: OrderedMap<String, Json> = OrderedMap::new();
            let mut index: usize = 0;
            assert(all.take(0) =~= Seq::empty());
            assert(member_views(members@) =~= members_of(all.take(0)));
            while index < entries.len()
                invariant
                    index <= entries.len(),
                    document == value_document(*value),
                    all == lent_documents(entries@),
                    names_differ(all),
                    document == JsonView::Object(members_of(all)),
                    json_wf(Json::Object(members)),
                    member_views(members@) == members_of(all.take(index as int)),
                decreases entries.len() - index,
            {
                let entry = &entries[index];
                proof {
                    lemma_members_of(all, index as int);
                    let named = members_of(all);
                    assert(decreases_to!(document => document->Object_0));
                    assert(decreases_to!(named => named[all[index as int].0]));
                    assert(all.take(index + 1).drop_last() =~= all.take(index as int));
                }
                let member = from_value(entry.1);
                put_member(&mut members, entry.0.as_str(), member);
                index += 1;
            }
            proof {
                assert(all.take(all.len() as int) =~= all);
                lemma_object_view(members);
            }
            Json::Object(members)
        },
    }
}

/// A document as a value of the JSON library.
fn to_value(json: &Json) -> (value: serde_json::Value)
    requires
        json_wf(*json),
    ensures
        value_document(value) == json_view(*json),
    decreases *json,
{
    match json {
        Json::Null => make_value(ValueParts::Null),
        Json::Bool(value) => make_value(ValueParts::Bool(*value)),
        Json::Number(value) => copy_value(value),
        Json::Text(text) => make_value(ValueParts::Text(text.clone())),
        Json::List(items) => {
            let values = item_values(items);
            proof {
                lemma_list_view(*items);
            }
            make_value(ValueParts::List(values))
        },
        Json::Object(members) => {
            let entries = member_values(members);
            proof {
                lemma_object_view(*members);
            }
            make_value(ValueParts::Object(entries))
        },
    }
}

fn item_values(items: &Vec<Json>) -> (values: Vec<serde_json::Value>)
    requires
        json_wf(Json::List(*items)),
    ensures
        value_documents(values@) == item_views(items@),
    decreases *items,
{
    let mut values: Vec<serde_json::Value> = Vec::new();
    let mut index: usize = 0;
    while index < items.len()
        invariant
            index <= items.len(),
            json_wf(Json::List(*items)),
            values@.len() == index,
            forall|i: int|
                0 <= i < index ==> value_document(#[trigger] values@[i]) == json_view(items@[i]),
        decreases items.len() - index,
    {
        proof {
            lemma_items_wf(*items);
        }
        values.push(to_value(&items[index]));
        index += 1;
    }
    assert(value_documents(values@) =~= item_views(items@));
    values
}

fn member_values(members: &OrderedMap<String, Json>) -> (values: Vec<(String, serde_json::Value)>)
    requires
        json_wf(Json::Object(*members)),
    ensures
        members_of(given_documents(values@)) == member_views(members@),
        names_differ(given_documents(values@)),
    decreases *members,
{
    let mut values: Vec<(String, serde_json::Value)> = Vec::new();
    let mut index: usize = 0;
    while index < members.entries.len()
        invariant
            index <= members.entries.len(),
            json_wf(Json::Object(*members)),
            values@.len() == index,
            forall|i: int|
                0 <= i < index ==> (#[trigger] values@[i]).0@ == members.entries@[i].0@
                    && value_document(values@[i].1) == json_view(members.entries@[i].1),
        decreases members.entries.len() - index,
    {
        let entry = &members.entries[index];
        assert(*entry == members.entries@[index as int]);
        assert(json_wf(entry.1));
        values.push((entry.0.clone(), to_value(&entry.1)));
        index += 1;
    }
    proof {
        let given = given_documents(values@);
        let keys = members.keys();
        lemma_entries_are_members(*members, given);
        assert forall|i: int, j: int| 0 <= i < j < given.len() implies (#[trigger] given[i]).0 != (
        #[trigger] given[j]).0 by {
            assert(given[i].0 == keys[i] && given[j].0 == keys[j]);
            assert(String::less(keys[i], keys[j]));
            String::lemma_order(keys[i], keys[i], keys[i]);
        }
    }
    values
}

/// Reads a document.
pub fn parse_json(bytes: &[u8]) -> (result: Result<Json, serde_json::Error>)
    ensures
        match json_document(bytes@) {
            Some(document) => result matches Ok(json) && json_wf(json) && json_view(json)
                == document,
            None => result is Err,
        },
{
    match read_value(bytes) {
        Ok(value) => Ok(from_value(&value)),
        Err(error) => Err(error),
    }
}

/// Writes a document.
pub fn write_json(json: &Json) -> (result: Result<Vec<u8>, serde_json::Error>)
    requires
        json_wf(*json),
    ensures
        result matches Ok(bytes) && bytes@ == json_bytes(json_view(*json)),
{
    write_value(&to_value(json))
}

impl Json {
    /// An unsigned number.
    pub fn unsigned(number: u64) -> (json: Self)
        ensures
            json_wf(json),
            json_view(json) == JsonView::Number(decimal(number as nat)),
    {
        Json::Number(unsigned_value(number))
    }

    /// A signed number.
    pub fn signed(number: i64) -> (json: Self)
        ensures
            json_wf(json),
            json_view(json) == JsonView::Number(signed_decimal(number as int)),
    {
        Json::Number(signed_value(number))
    }
}

} // verus!
