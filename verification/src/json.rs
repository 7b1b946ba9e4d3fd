//! JSON documents as values.

use vstd::prelude::*;

use crate::json_value::{copy_value, value_document};
use crate::ordered_map::{lemma_entry, OrderedMap};
use crate::text::same_text;

verus! {

/// A JSON document. A number is kept as the JSON library holds it.
#[derive(Debug)]
pub enum Json {
    Null,
    Bool(bool),
    Number(serde_json::Value),
    Text(String),
    List(Vec<Json>),
    Object(OrderedMap<String, Json>),
}

/// The value of a document.
pub enum JsonView {
    Null,
    Bool(bool),
    Number(Seq<char>),
    Text(Seq<char>),
    List(Seq<JsonView>),
    Object(Map<Seq<char>, JsonView>),
}

/// What a document says.
pub open spec fn json_view(json: Json) -> JsonView
    decreases json,
{
    match json {
        Json::Null => JsonView::Null,
        Json::Bool(value) => JsonView::Bool(value),
        Json::Number(value) => value_document(value),
        Json::Text(text) => JsonView::Text(text@),
        Json::List(items) => JsonView::List(
            Seq::new(
                items@.len(),
                |i: int|
                    if 0 <= i < items@.len() {
                        json_view(items@[i])
                    } else {
                        JsonView::Null
                    },
            ),
        ),
        Json::Object(members) => JsonView::Object(
            Map::new(
                |key: Seq<char>| members@.contains_key(key),
                |key: Seq<char>|
                    if decreases_to!(json => members@[key]) {
                        json_view(members@[key])
                    } else {
                        JsonView::Null
                    },
            ),
        ),
    }
}

/// The members of every object in a document are in order, and its numbers are
/// numbers.
pub open spec fn json_wf(json: Json) -> bool
    decreases json,
{
    match json {
        Json::List(items) => forall|i: int|
            0 <= i < items@.len() ==> json_wf(#[trigger] items@[i]),
        Json::Object(members) => members.wf() && forall|i: int|
            0 <= i < members.entries@.len() ==> json_wf(
                (#[trigger] members.entries@[i]).1,
            ),
        Json::Number(value) => value_document(value) is Number,
        _ => true,
    }
}

/// The values of some items.
pub open spec fn item_views(items: Seq<Json>) -> Seq<JsonView> {
    items.map_values(|item: Json| json_view(item))
}

/// The values of some members.
pub open spec fn member_views(members: Map<Seq<char>, Json>) -> Map<Seq<char>, JsonView> {
    members.map_values(|member: Json| json_view(member))
}

/// Members put in one after the other.
pub open spec fn members_of(entries: Seq<(Seq<char>, JsonView)>) -> Map<Seq<char>, JsonView>
    decreases entries.len(),
{
    if entries.len() == 0 {
        Map::empty()
    } else {
        members_of(entries.drop_last()).insert(entries.last().0, entries.last().1)
    }
}

/// The members of an object are its entries, put in one after the other.
pub proof fn lemma_entries_are_members(
    members: OrderedMap<String, Json>,
    entries: Seq<(Seq<char>, JsonView)>,
)
    requires
        members.wf(),
        entries.len() == members.entries@.len(),
        forall|i: int|
            0 <= i < entries.len() ==> (#[trigger] entries[i]).0 == members.entries@[i].0@
                && entries[i].1 == json_view(members.entries@[i].1),
    ensures
        members_of(entries) == member_views(members@),
{
    assert forall|key: Seq<char>| #[trigger]
        members_of(entries).contains_key(key) == member_views(members@).contains_key(key)
            && (members_of(entries).contains_key(key) ==> members_of(entries)[key]
            == member_views(members@)[key]) by {
        lemma_last_named(entries, key);
        if members@.contains_key(key) {
            let i = members.keys().index_of(key);
            assert(members.keys()[i] == key);
            lemma_entry(members.entries@, i);
            assert(entries[i].0 == key);
        }
        if members_of(entries).contains_key(key) {
            let i = choose|i: int|
                0 <= i < entries.len() && (#[trigger] entries[i]).0 == key && entries[i].1
                    == members_of(entries)[key];
            lemma_entry(members.entries@, i);
        }
    }
    assert(members_of(entries) =~= member_views(members@));
}

proof fn lemma_last_named(entries: Seq<(Seq<char>, JsonView)>, key: Seq<char>)
    ensures
        members_of(entries).contains_key(key) == exists|i: int|
            0 <= i < entries.len() && (#[trigger] entries[i]).0 == key,
        members_of(entries).contains_key(key) ==> exists|i: int|
            0 <= i < entries.len() && (#[trigger] entries[i]).0 == key && entries[i].1
                == members_of(entries)[key],
    decreases entries.len(),
{
    if entries.len() > 0 {
        let before = entries.drop_last();
        lemma_last_named(before, key);
        assert forall|i: int| 0 <= i < before.len() implies before[i] == entries[i] by {}
        assert(entries.last() == entries[entries.len() - 1]);
        if members_of(before).contains_key(key) {
            let i = choose|i: int|
                0 <= i < before.len() && (#[trigger] before[i]).0 == key && before[i].1
                    == members_of(before)[key];
            assert(entries[i].0 == key);
        }
        if exists|i: int| 0 <= i < entries.len() && (#[trigger] entries[i]).0 == key {
            let i = choose|i: int| 0 <= i < entries.len() && (#[trigger] entries[i]).0 == key;
            if i < before.len() {
                assert(before[i].0 == key);
            }
        }
    }
}

pub proof fn lemma_list_view(items: Vec<Json>)
    ensures
        json_view(Json::List(items)) == JsonView::List(item_views(items@)),
{
    assert(json_view(Json::List(items))->List_0 =~= item_views(items@));
}

pub proof fn lemma_member_is_smaller(members: OrderedMap<String, Json>, key: Seq<char>)
    requires
        members@.contains_key(key),
    ensures
        decreases_to!(Json::Object(members) => members@[key]),
{
    let i = members.keys().index_of(key);
    assert(members.keys()[i] == key);
    assert(members@[key] == members.entries@[i].1);
    let json = Json::Object(members);
    assert(0 <= i < members.entries@.len());
    let entry = members.entries[i];
    assert(decreases_to!(members.entries => entry));
    assert(decreases_to!(members => entry));
    assert(decreases_to!(json => json->Object_0));
    assert(decreases_to!(json => entry));
}

proof fn lemma_item_wf(items: Vec<Json>, i: int)
    requires
        json_wf(Json::List(items)),
        0 <= i < items@.len(),
    ensures
        json_wf(items@[i]),
{
    let json = Json::List(items);
    assert(json->List_0@[i] == items@[i]);
}


pub proof fn lemma_object_view(members: OrderedMap<String, Json>)
    ensures
        json_view(Json::Object(members)) == JsonView::Object(member_views(members@)),
{
    let left = json_view(Json::Object(members))->Object_0;
    assert forall|key: Seq<char>| #[trigger] left.contains_key(key) implies left[key]
        == member_views(members@)[key] by {
        lemma_member_is_smaller(members, key);
    }
    assert(left =~= member_views(members@));
}

/// The members of a well-formed object are well formed.
pub proof fn lemma_members_wf(members: OrderedMap<String, Json>)
    requires
        members.wf(),
    ensures
        json_wf(Json::Object(members)) == (forall|key: Seq<char>| #[trigger]
            members@.contains_key(key) ==> json_wf(members@[key])),
{
    if json_wf(Json::Object(members)) {
        assert forall|key: Seq<char>| #[trigger] members@.contains_key(key) implies json_wf(
            members@[key],
        ) by {
            let i = members.keys().index_of(key);
            assert(members.keys()[i] == key);
            assert(members@[key] == members.entries@[i].1);
        }
    }
    if forall|key: Seq<char>| #[trigger] members@.contains_key(key) ==> json_wf(members@[key]) {
        assert forall|i: int| 0 <= i < members.entries@.len() implies json_wf(
            (#[trigger] members.entries@[i]).1,
        ) by {
            lemma_entry(members.entries@, i);
            assert(members@.contains_key(members.entries@[i].0@));
        }
    }
}

impl Json {
    /// The same document once more.
    pub fn copy(&self) -> (copy: Json)
        requires
            json_wf(*self),
        ensures
            json_wf(copy),
            json_view(copy) == json_view(*self),
        decreases *self,
    {
        match self {
            Json::Null => Json::Null,
            Json::Bool(value) => Json::Bool(*value),
            Json::Number(value) => Json::Number(copy_value(value)),
            Json::Text(text) => Json::Text(text.clone()),
            Json::List(items) => Json::List(copy_items(items)),
            Json::Object(members) => {
                let copies = copy_members(members);
                proof {
                    lemma_object_view(copies);
                    lemma_object_view(*members);
                }
                Json::Object(copies)
            },
        }
    }
}

fn copy_items(items: &Vec<Json>) -> (copies: Vec<Json>)
    requires
        json_wf(Json::List(*items)),
    ensures
        json_wf(Json::List(copies)),
        json_view(Json::List(copies)) == json_view(Json::List(*items)),
    decreases *items,
{
    let mut copies: Vec<Json> = Vec::new();
    let mut index: usize = 0;
    while index < items.len()
        invariant
            index <= items.len(),
            json_wf(Json::List(*items)),
            copies@.len() == index,
            forall|i: int|
                0 <= i < index ==> json_wf(#[trigger] copies@[i]) && json_view(copies@[i])
                    == json_view(items@[i]),
        decreases items.len() - index,
    {
        let item = &items[index];
        proof {
            lemma_item_wf(*items, index as int);
        }
        copies.push(item.copy());
        index += 1;
    }
    proof {
        lemma_list_view(copies);
        lemma_list_view(*items);
        assert(item_views(copies@) =~= item_views(items@));
    }
    copies
}

fn copy_members(members: &OrderedMap<String, Json>) -> (copies: OrderedMap<String, Json>)
    requires
        json_wf(Json::Object(*members)),
    ensures
        json_wf(Json::Object(copies)),
        member_views(copies@) == member_views(members@),
    decreases *members,
{
    let mut copies: OrderedMap<String, Json> = OrderedMap::new();
    let mut index: usize = 0;
    while index < members.entries.len()
        invariant
            index <= members.entries.len(),
            json_wf(Json::Object(*members)),
            copies.entries@.len() == index,
            forall|i: int|
                0 <= i < index ==> (#[trigger] copies.entries@[i]).0@ == members.entries@[i].0@
                    && json_wf(copies.entries@[i].1) && json_view(copies.entries@[i].1)
                    == json_view(members.entries@[i].1),
        decreases members.entries.len() - index,
    {
        let entry = &members.entries[index];
        assert(*entry == members.entries@[index as int]);
        assert(json_wf(entry.1));
        copies.entries.push((entry.0.clone(), entry.1.copy()));
        index += 1;
    }
    proof {
        assert(copies.keys() =~= members.keys());
        assert(copies.wf());
        assert forall|key: Seq<char>| #[trigger]
            member_views(copies@).contains_key(key) implies member_views(copies@)[key]
            == member_views(members@)[key] by {
            let i = copies.keys().index_of(key);
            assert(copies.keys()[i] == key);
            lemma_entry(copies.entries@, i);
            lemma_entry(members.entries@, i);
        }
        assert(member_views(copies@) =~= member_views(members@));
    }
    copies
}

/// A member of a document that is an object.
pub open spec fn member_of(json: JsonView, key: Seq<char>) -> Option<JsonView> {
    match json {
        JsonView::Object(members) => if members.contains_key(key) {
            Some(members[key])
        } else {
            None
        },
        _ => None,
    }
}

/// The text that a member of an object holds.
pub open spec fn member_text(json: JsonView, key: Seq<char>) -> Option<Seq<char>> {
    match member_of(json, key) {
        Some(JsonView::Text(text)) => Some(text),
        _ => None,
    }
}

/// Puts a member into an object.
pub fn put_member(members: &mut OrderedMap<String, Json>, key: &str, value: Json)
    requires
        json_wf(Json::Object(*old(members))),
        json_wf(value),
    ensures
        json_wf(Json::Object(*final(members))),
        member_views(final(members)@) == member_views(old(members)@).insert(
            key@,
            json_view(value),
        ),
{
    proof {
        lemma_members_wf(*members);
    }
    let name: String = key.to_owned();
    members.insert(name, value);
    proof {
        assert(member_views(members@) =~= member_views(old(members)@).insert(
            key@,
            json_view(value),
        ));
        lemma_members_wf(*members);
    }
}

/// Takes a member out of an object.
pub fn take_member(members: &mut OrderedMap<String, Json>, key: &String) -> (taken: Option<Json>)
    requires
        json_wf(Json::Object(*old(members))),
    ensures
        json_wf(Json::Object(*final(members))),
        member_views(final(members)@) == member_views(old(members)@).remove(key@),
        match taken {
            Some(value) => json_wf(value) && member_views(old(members)@).contains_key(key@)
                && json_view(value) == member_views(old(members)@)[key@],
            None => !member_views(old(members)@).contains_key(key@),
        },
{
    proof {
        lemma_members_wf(*members);
    }
    let taken = members.remove(key);
    proof {
        assert(member_views(members@) =~= member_views(old(members)@).remove(key@));
        lemma_members_wf(*members);
    }
    taken
}

/// Looks at a member of an object.
pub fn get_member<'a>(members: &'a OrderedMap<String, Json>, key: &String) -> (found: Option<
    &'a Json,
>)
    requires
        json_wf(Json::Object(*members)),
    ensures
        match found {
            Some(value) => json_wf(*value) && member_views(members@).contains_key(key@)
                && json_view(*value) == member_views(members@)[key@],
            None => !member_views(members@).contains_key(key@),
        },
{
    proof {
        lemma_members_wf(*members);
    }
    members.get(key)
}

pub open spec fn all_wf(items: Seq<Json>) -> bool {
    forall|i: int| 0 <= i < items.len() ==> json_wf(#[trigger] items[i])
}

pub proof fn lemma_items_wf(items: Vec<Json>)
    ensures
        json_wf(Json::List(items)) == all_wf(items@),
{
    let json = Json::List(items);
    assert(json->List_0 == items);
}

impl Json {
    /// The text that a member of an object holds, compared with a text.
    pub fn member_is(&self, key: &str, text: &str) -> (same: bool)
        requires
            json_wf(*self),
        ensures
            same == (member_text(json_view(*self), key@) == Some(text@)),
    {
        match self {
            Json::Object(members) => {
                proof {
                    lemma_object_view(*members);
                }
                let name: String = key.to_owned();
                match get_member(members, &name) {
                    Some(Json::Text(found)) => same_text(found.as_str(), text),
                    _ => false,
                }
            },
            _ => false,
        }
    }
}

/// A list shows its items in order, and an object its members under their
/// names.
pub proof fn law_documents_show_their_parts(
    items: Vec<Json>,
    index: int,
    members: OrderedMap<String, Json>,
    key: Seq<char>,
)
    ensures
        json_view(Json::List(items)) matches JsonView::List(shown) && shown.len() == items@.len()
            && (0 <= index < items@.len() ==> shown[index] == json_view(items@[index])),
        json_view(Json::Object(members)) matches JsonView::Object(shown) && (shown.contains_key(key)
            <==> members@.contains_key(key)),
{
}

/// Of entries with one name the last counts.
pub proof fn law_last_entry_of_a_name_counts(
    entries: Seq<(Seq<char>, JsonView)>,
    name: Seq<char>,
    value: JsonView,
    other: Seq<char>,
)
    ensures
        members_of(entries.push((name, value))).contains_key(name),
        members_of(entries.push((name, value)))[name] == value,
        other != name ==> (members_of(entries.push((name, value))).contains_key(other)
            <==> members_of(entries).contains_key(other)) && members_of(
            entries.push((name, value)),
        )[other] == members_of(entries)[other],
{
    assert(entries.push((name, value)).drop_last() =~= entries);
}

/// A member is read only from an object that has it, and its text only when it
/// is one.
pub proof fn law_members_are_read_by_name(
    members: Map<Seq<char>, JsonView>,
    key: Seq<char>,
    text: Seq<char>,
)
    ensures
        member_of(JsonView::Object(members), key) is Some <==> members.contains_key(key),
        member_text(JsonView::Object(members), key) == Some(text) <==> members.contains_key(key)
            && members[key] == JsonView::Text(text),
        member_of(JsonView::Null, key) is None,
{
}

} // verus!
