//! JSON values.

use std::collections::HashMap;
use vstd::prelude::*;

use crate::string_map::{entries_map, lemma_entries_domain, lemma_entries_value, StringMap};
use crate::text::{opt_str, opt_text};

verus! {

/// A JSON value.
#[derive(Debug, PartialEq, Eq)]
pub enum Json {
    Null,
    Bool(bool),
    /// A number, as `serde_json` writes it. That need not be how it was read:
    /// fractions and integers beyond 64 bits are written anew.
    Number(String),
    Text(String),
    Array(Vec<Json>),
    /// The members of an object. Of members with the same name the last
    /// counts.
    Object(Vec<(String, Json)>),
}

/// The model of a [`Json`] value.
pub enum JsonView {
    Null,
    Bool(bool),
    Number(Seq<char>),
    Text(Seq<char>),
    Array(Seq<JsonView>),
    Object(Map<Seq<char>, JsonView>),
}

impl View for Json {
    type V = JsonView;

    open spec fn view(&self) -> JsonView {
        json_view(*self)
    }
}

/// The model of a value.
pub open spec fn json_view(json: Json) -> JsonView
    decreases json,
{
    match json {
        Json::Null => JsonView::Null,
        Json::Bool(value) => JsonView::Bool(value),
        Json::Number(digits) => JsonView::Number(digits@),
        Json::Text(text) => JsonView::Text(text@),
        Json::Array(items) => JsonView::Array(items_view(items@)),
        Json::Object(members) => JsonView::Object(members_view(members@)),
    }
}

/// The models of the items of an array.
pub open spec fn items_view(items: Seq<Json>) -> Seq<JsonView>
    decreases items,
{
    if items.len() == 0 {
        Seq::empty()
    } else {
        items_view(items.drop_last()).push(json_view(items.last()))
    }
}

/// The model of the members of an object.
pub open spec fn members_view(members: Seq<(String, Json)>) -> Map<Seq<char>, JsonView>
    decreases members,
{
    if members.len() == 0 {
        Map::empty()
    } else {
        members_view(members.drop_last()).insert(members.last().0@, json_view(members.last().1))
    }
}

/// A map of values with each value modelled.
pub open spec fn json_map(map: Map<Seq<char>, Json>) -> Map<Seq<char>, JsonView> {
    map.map_values(|json: Json| json@)
}

/// The model of the members is that of the map of the members, with each
/// value modelled.
pub proof fn lemma_members_view(members: Seq<(String, Json)>)
    ensures
        members_view(members) == json_map(entries_map(members)),
    decreases members.len(),
{
    if members.len() > 0 {
        lemma_members_view(members.drop_last());
    }
    assert(members_view(members) =~= json_map(entries_map(members)));
}

/// What the items of an array are modelled by, one by one.
pub proof fn lemma_items_view(items: Seq<Json>)
    ensures
        items_view(items) == items.map_values(|json: Json| json@),
    decreases items.len(),
{
    if items.len() > 0 {
        lemma_items_view(items.drop_last());
    }
    assert(items_view(items) =~= items.map_values(|json: Json| json@));
}

/// A value is modelled by what it holds.
pub proof fn law_json_view(json: Json)
    ensures
        match json {
            Json::Null => json@ == JsonView::Null,
            Json::Bool(value) => json@ == JsonView::Bool(value),
            Json::Number(digits) => json@ == JsonView::Number(digits@),
            Json::Text(text) => json@ == JsonView::Text(text@),
            Json::Array(items) => {
                &&& json@ is Array
                &&& json@->Array_0.len() == items@.len()
                &&& forall|i: int| 0 <= i < items@.len() ==> (#[trigger] json@->Array_0[i])
                    == items@[i]@
            },
            Json::Object(members) => {
                &&& json@ is Object
                &&& forall|name: Seq<char>| #[trigger]
                    json@->Object_0.contains_key(name) <==> exists|i: int|
                        0 <= i < members@.len() && members@[i].0@ == name
                &&& forall|i: int|
                    0 <= i < members@.len() && (forall|j: int|
                        i < j < members@.len() ==> members@[j].0@ != members@[i].0@)
                        ==> json@->Object_0[(#[trigger] members@[i]).0@] == members@[i].1@
            },
        },
{
    match json {
        Json::Array(items) => {
            lemma_items_view(items@);
        },
        Json::Object(members) => {
            lemma_members_view(members@);
            assert forall|name: Seq<char>| #[trigger]
                json@->Object_0.contains_key(name) <==> exists|i: int|
                    0 <= i < members@.len() && members@[i].0@ == name by {
                lemma_entries_domain(members@, name);
            }
            let view = json@->Object_0;
            assert forall|i: int|
                0 <= i < members@.len() && (forall|j: int|
                    i < j < members@.len() ==> members@[j].0@ != members@[i].0@) implies view[(
            #[trigger] members@[i]).0@] == members@[i].1@ by {
                lemma_entries_value(members@, i);
            }
        },
        _ => {},
    }
}

impl Clone for Json {
    fn clone(&self) -> (copy: Self)
        ensures
            copy@ == self@,
        decreases *self,
    {
        match self {
            Json::Null => Json::Null,
            Json::Bool(value) => Json::Bool(*value),
            Json::Number(digits) => Json::Number(digits.clone()),
            Json::Text(text) => Json::Text(text.clone()),
            Json::Array(items) => {
                let mut copies: Vec<Json> = Vec::new();
                let mut i: usize = 0;
                while i < items.len()
                    invariant
                        i <= items@.len(),
                        *self == Json::Array(*items),
                        items_view(copies@) == items_view(items@.take(i as int)),
                    decreases items@.len() - i,
                {
                    let ghost before = copies@;
                    assert(decreases_to!(*self => (*self)->Array_0));
                    assert(decreases_to!((*self)->Array_0 => items@));
                    assert(decreases_to!(items@ => items@[i as int]));
                    copies.push(items[i].clone());
                    i = i + 1;
                    assert(items@.take(i as int).drop_last() =~= items@.take(i - 1));
                    assert(copies@.drop_last() =~= before);
                }
                assert(items@.take(i as int) =~= items@);
                Json::Array(copies)
            },
            Json::Object(members) => {
                let mut copies: Vec<(String, Json)> = Vec::new();
                let mut i: usize = 0;
                while i < members.len()
                    invariant
                        i <= members@.len(),
                        *self == Json::Object(*members),
                        members_view(copies@) == members_view(members@.take(i as int)),
                    decreases members@.len() - i,
                {
                    let ghost before = copies@;
                    assert(decreases_to!(*self => (*self)->Object_0));
                    assert(decreases_to!((*self)->Object_0 => members@));
                    assert(decreases_to!(members@ => members@[i as int]));
                    assert(decreases_to!(members@[i as int] => members@[i as int].1));
                    copies.push((members[i].0.clone(), members[i].1.clone()));
                    i = i + 1;
                    assert(members@.take(i as int).drop_last() =~= members@.take(i - 1));
                    assert(copies@.drop_last() =~= before);
                }
                assert(members@.take(i as int) =~= members@);
                Json::Object(copies)
            },
        }
    }
}

/// The text that a value is, if it is one.
pub open spec fn text_in(json: JsonView) -> Option<Seq<char>> {
    match json {
        JsonView::Text(text) => Some(text),
        _ => None,
    }
}

impl Json {
    /// The text that the value is, if it is one.
    pub fn as_str(&self) -> (text: Option<&str>)
        ensures
            opt_str(text) == text_in(self@),
            text is Some <==> *self is Text,
            *self matches Json::Text(held) ==> text is Some && text->0@ == held@,
    {
        match self {
            Json::Text(text) => Some(text.as_str()),
            _ => None,
        }
    }
}

/// The JSON values of `serde_json`.
#[verifier::external_type_specification]
#[verifier::external_body]
pub struct ExValue(serde_json::Value);

/// What a value of `serde_json` holds.
pub uninterp spec fn value_contents(value: serde_json::Value) -> JsonView;

/// The members that `serde_json` reads from a text that starts with an object,
/// or what it says of a text that does not.
pub uninterp spec fn json_members(text: Seq<char>) -> Result<
    Map<Seq<char>, JsonView>,
    Seq<char>,
>;

/// What `serde_json` says of a text that goes on behind the object that it
/// starts with.
pub uninterp spec fn json_trailing(text: Seq<char>) -> Option<Seq<char>>;

/// Deserializes a `HashMap<String, serde_json::Value>` with
/// `serde_json::Deserializer::from_str`, and then asks `Deserializer::end`
/// whether the text ends there. The members, the error in their place and the
/// error of `end` depend on the text alone.
#[verifier::external_body]
fn read_members(text: &str) -> (read: Result<(serde_json::Value, Option<String>), String>)
    ensures
        match read {
            Ok((value, trailing)) => {
                &&& json_members(text@) is Ok
                &&& value_contents(value) == JsonView::Object(json_members(text@)->Ok_0)
                &&& opt_text(trailing) == json_trailing(text@)
            },
            Err(reason) => json_members(text@) == Err::<Map<Seq<char>, JsonView>, Seq<char>>(
                reason@,
            ),
        },
{
    let mut reader = serde_json::Deserializer::from_str(text);
    let members = <HashMap<String, serde_json::Value> as serde::Deserialize>::deserialize(
        &mut reader,
    ).map_err(|e| e.to_string())?;
    let trailing = reader.end().err().map(|e| e.to_string());
    Ok((serde_json::Value::Object(members.into_iter().collect()), trailing))
}

/// Takes a `serde_json::Value` apart, variant by variant. The result holds
/// what the value holds.
#[verifier::external_body]
fn json_of(value: serde_json::Value) -> (json: Json)
    ensures
        json@ == value_contents(value),
{
    match value {
        serde_json::Value::Null => Json::Null,
        serde_json::Value::Bool(value) => Json::Bool(value),
        serde_json::Value::Number(number) => Json::Number(number.to_string()),
        serde_json::Value::String(text) => Json::Text(text),
        serde_json::Value::Array(items) => Json::Array(items.into_iter().map(json_of).collect()),
        serde_json::Value::Object(members) => Json::Object(
            members.into_iter().map(|(name, value)| (name, json_of(value))).collect(),
        ),
    }
}

/// A JSON object at the start of a text.
pub struct LeadingObject {
    /// The members of the object.
    pub members: StringMap<Json>,
    /// What is wrong with the text behind the object, if anything is.
    pub trailing: Option<String>,
}

/// Reads the JSON object that a text starts with.
pub fn read_object(text: &str) -> (read: Result<LeadingObject, String>)
    ensures
        match read {
            Ok(object) => {
                &&& json_members(text@) == Ok::<Map<Seq<char>, JsonView>, Seq<char>>(
                    json_map(object.members@),
                )
                &&& opt_text(object.trailing) == json_trailing(text@)
            },
            Err(reason) => json_members(text@) == Err::<Map<Seq<char>, JsonView>, Seq<char>>(
                reason@,
            ),
        },
{
    let (value, trailing) = match read_members(text) {
        Ok(read) => read,
        Err(reason) => {
            return Err(reason);
        },
    };
    let json = json_of(value);
    let members = match json {
        Json::Object(members) => members,
        _ => {
            proof {
                assert(false);
            }
            Vec::new()
        },
    };
    proof {
        lemma_members_view(members@);
    }
    Ok(LeadingObject { members: StringMap::from_pairs(members), trailing })
}

} // verus!
