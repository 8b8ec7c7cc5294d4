//! Vault API data models.

use vstd::prelude::*;

use crate::json::{json_map, json_members, json_trailing, lemma_members_view, read_object};
use crate::json::{Json, JsonView};
use crate::string_map::StringMap;

pub use crate::mount_info::{EngineType, MountInfo};

verus! {

/// Parsed Vault secret data: the values of a secret by key.
#[derive(Debug, Clone)]
pub struct VaultData(pub StringMap<Json>);

impl View for VaultData {
    type V = Map<Seq<char>, JsonView>;

    open spec fn view(&self) -> Map<Seq<char>, JsonView> {
        json_map(self.0@)
    }
}

/// What a reply without data is told.
pub open spec fn missing_data() -> Seq<char> {
    "missing 'data' field in Vault response"@
}

/// The object that stands under `data`, if there is one.
pub open spec fn data_object(members: Map<Seq<char>, JsonView>) -> Option<
    Map<Seq<char>, JsonView>,
> {
    if members.contains_key("data"@) {
        match members["data"@] {
            JsonView::Object(inner) => Some(inner),
            _ => None,
        }
    } else {
        None
    }
}

/// The values of the secret in a reply: what stands under `data` under `data`,
/// as the engine of version 2 nests it, else what stands under `data`.
pub open spec fn secret_data(members: Map<Seq<char>, JsonView>) -> Option<
    Map<Seq<char>, JsonView>,
> {
    match data_object(members) {
        Some(inner) => match data_object(inner) {
            Some(data) => Some(data),
            None => Some(inner),
        },
        None => None,
    }
}

/// A reply of the engine of version 2 gives the values that it nests.
pub proof fn law_nested_data(members: Map<Seq<char>, JsonView>, values: Map<Seq<char>, JsonView>)
    requires
        data_object(members) matches Some(inner) && data_object(inner) == Some(values),
    ensures
        secret_data(members) == Some(values),
{
}

/// A reply of the engine of version 1 gives the values that it holds, unless
/// one of them is an object under `data`.
pub proof fn law_flat_data(members: Map<Seq<char>, JsonView>, values: Map<Seq<char>, JsonView>)
    requires
        data_object(members) == Some(values),
        data_object(values) is None,
    ensures
        secret_data(members) == Some(values),
{
}

/// The values of a secret are what stands under `data` under `data`, where both are
/// objects; else what stands under `data`, where that is an object; else there are
/// none.
pub proof fn law_secret_data(members: Map<Seq<char>, JsonView>)
    ensures
        !members.contains_key("data"@) ==> secret_data(members) is None,
        members.contains_key("data"@) && !(members["data"@] is Object) ==> secret_data(
            members,
        ) is None,
        members.contains_key("data"@) && members["data"@] is Object ==> {
            let outer = members["data"@]->Object_0;
            let nested = outer.contains_key("data"@) && outer["data"@] is Object;
            &&& nested ==> secret_data(members) == Some(outer["data"@]->Object_0)
            &&& !nested ==> secret_data(members) == Some(outer)
        },
{
}

/// A reply that is a JSON object and nothing more gives the values of its secret.
/// One without values, and one that is not such a text, gives the reason.
pub proof fn law_replied_data(text: Seq<char>)
    ensures
        json_members(text) matches Err(reason) ==> replied_data(text) == Err::<
            Map<Seq<char>, JsonView>,
            Seq<char>,
        >(reason),
        json_members(text) matches Ok(members) ==> {
            &&& secret_data(members) is None ==> replied_data(text) == Err::<
                Map<Seq<char>, JsonView>,
                Seq<char>,
            >("missing 'data' field in Vault response"@)
            &&& secret_data(members) is Some ==> {
                &&& json_trailing(text) matches Some(reason) ==> replied_data(text) == Err::<
                    Map<Seq<char>, JsonView>,
                    Seq<char>,
                >(reason)
                &&& json_trailing(text) is None ==> replied_data(text) == Ok::<
                    Map<Seq<char>, JsonView>,
                    Seq<char>,
                >(secret_data(members)->0)
            }
        },
{
}

/// The values of the secret in the text of a reply, or why it has none.
pub open spec fn replied_data(text: Seq<char>) -> Result<Map<Seq<char>, JsonView>, Seq<char>> {
    match json_members(text) {
        Err(reason) => Err(reason),
        Ok(members) => match (secret_data(members), json_trailing(text)) {
            (None, _) => Err(missing_data()),
            (Some(_), Some(reason)) => Err(reason),
            (Some(data), None) => Ok(data),
        },
    }
}

/// Takes out the object that stands under `data`.
fn take_data(members: &mut StringMap<Json>) -> (data: Option<StringMap<Json>>)
    ensures
        match data {
            Some(data) => data_object(json_map(old(members)@)) == Some(json_map(data@)),
            None => data_object(json_map(old(members)@)) is None && final(members)@ == old(
                members,
            )@,
        },
{
    let found = match members.get("data") {
        Some(Json::Object(_)) => true,
        _ => false,
    };
    if !found {
        return None;
    }
    match members.remove("data") {
        Some(Json::Object(inner)) => {
            proof {
                lemma_members_view(inner@);
            }
            Some(StringMap::from_pairs(inner))
        },
        _ => None,
    }
}

impl VaultData {
    /// The values of the secret in a reply, if it has any.
    pub fn from_members(members: StringMap<Json>) -> (data: Option<Self>)
        ensures
            match data {
                Some(data) => secret_data(json_map(members@)) == Some(data@),
                None => secret_data(json_map(members@)) is None,
            },
    {
        let mut members = members;
        match take_data(&mut members) {
            Some(inner) => {
                let mut inner = inner;
                match take_data(&mut inner) {
                    Some(data) => Some(VaultData(data)),
                    None => Some(VaultData(inner)),
                }
            },
            None => None,
        }
    }

    /// Reads the text in which Vault replies with a secret.
    pub fn from_response(text: &str) -> (data: Result<Self, String>)
        ensures
            match data {
                Ok(data) => replied_data(text@) == Ok::<Map<Seq<char>, JsonView>, Seq<char>>(
                    data@,
                ),
                Err(reason) => replied_data(text@) == Err::<Map<Seq<char>, JsonView>, Seq<char>>(
                    reason@,
                ),
            },
    {
        match read_object(text) {
            Ok(object) => match VaultData::from_members(object.members) {
                None => Err("missing 'data' field in Vault response".to_owned()),
                Some(data) => match object.trailing {
                    Some(reason) => Err(reason),
                    None => Ok(data),
                },
            },
            Err(reason) => Err(reason),
        }
    }

    /// The value of a key.
    pub fn get(&self, key: &str) -> (value: Option<&Json>)
        ensures
            match value {
                Some(value) => self@.contains_key(key@) && value@ == self@[key@],
                None => !self@.contains_key(key@),
            },
    {
        self.0.get(key)
    }
}

/// Vault client token returned by auth backends.
#[derive(Debug, Clone)]
pub struct ClientToken {
    pub auth: AuthPayload,
}

/// The part of a login reply that holds the token.
#[derive(Debug, Clone)]
pub struct AuthPayload {
    pub client_token: String,
}

} // verus!
