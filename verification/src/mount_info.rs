//! Mount information.
//!
//! Maps mount prefixes (e.g. `"secret/"`) to their KV engine version.

use vstd::prelude::*;
use vstd::string::*;

use crate::address::api_path;
use crate::json::{json_map, json_members, json_trailing, lemma_items_view, lemma_members_view};
use crate::json::{read_object, text_in, Json, JsonView};
use crate::secrets_file::{Secret, SecretView};
use crate::string_map::{entries_map, lemma_entries_domain, lemma_entries_value, StringMap};
use crate::text::same_text;

verus! {

/// Vault KV engine type.
#[derive(Debug, Clone, Copy, PartialEq, Eq, Structural)]
pub enum EngineType {
    V1,
    V2,
}

impl Default for EngineType {
    fn default() -> (engine: Self)
        ensures
            engine == EngineType::V1,
    {
        EngineType::V1
    }
}

/// Which engine serves each mount, keyed by the mount with a slash behind it.
#[derive(Debug, Clone)]
pub struct MountInfo {
    mounts: StringMap<EngineType>,
}

impl View for MountInfo {
    type V = Map<Seq<char>, EngineType>;

    closed spec fn view(&self) -> Map<Seq<char>, EngineType> {
        self.mounts@
    }
}

/// The engine of a mount: the one it is listed with, else version 1.
pub open spec fn engine_of(mounts: Map<Seq<char>, EngineType>, mount: Seq<char>) -> EngineType {
    if mounts.contains_key(mount + "/"@) {
        mounts[mount + "/"@]
    } else {
        EngineType::V1
    }
}

/// The path of the Vault API under which a secret is read.
pub open spec fn request_path(
    mounts: Map<Seq<char>, EngineType>,
    secret: SecretView,
) -> Seq<char> {
    match engine_of(mounts, secret.mount) {
        EngineType::V1 => "/v1/"@ + secret.mount + "/"@ + secret.path,
        EngineType::V2 => "/v1/"@ + secret.mount + "/data/"@ + secret.path,
    }
}

/// Every secret is read under a path of the Vault API.
pub proof fn law_secret_path_under_api(mounts: Map<Seq<char>, EngineType>, secret: SecretView)
    ensures
        api_path(request_path(mounts, secret)),
{
    reveal_strlit("/v1/");
    assert(request_path(mounts, secret).take(4) =~= "/v1/"@);
}

/// A mount that is not listed is taken to be of version 1.
pub proof fn law_unlisted_mount(mounts: Map<Seq<char>, EngineType>, secret: SecretView)
    requires
        !mounts.contains_key(secret.mount + "/"@),
    ensures
        request_path(mounts, secret) == "/v1/"@ + secret.mount + "/"@ + secret.path,
{
}

/// A secret under a listed mount is read under that very mount: with version 2
/// under its data, with version 1 directly.
pub proof fn law_listed_mount(mounts: Map<Seq<char>, EngineType>, secret: SecretView)
    requires
        mounts.contains_key(secret.mount + seq!['/']),
    ensures
        mounts[secret.mount + seq!['/']] == EngineType::V1 ==> request_path(mounts, secret)
            == "/v1/"@ + secret.mount + "/"@ + secret.path,
        mounts[secret.mount + seq!['/']] == EngineType::V2 ==> request_path(mounts, secret)
            == "/v1/"@ + secret.mount + "/data/"@ + secret.path,
{
    reveal_strlit("/");
    assert("/"@ =~= seq!['/']);
}

/// The version that the options of a mount give. They are an object with a
/// `version`, or an array of the version alone.
pub open spec fn options_version(options: JsonView) -> Option<Seq<char>> {
    match options {
        JsonView::Object(members) => if members.contains_key("version"@) {
            text_in(members["version"@])
        } else {
            None
        },
        JsonView::Array(items) => if items.len() == 1 {
            text_in(items[0])
        } else {
            None
        },
        _ => None,
    }
}

/// The type and the version that the description of a mount gives. It is an
/// object with a `type` and `options`, or an array of the two.
pub open spec fn mount_spec(mount: JsonView) -> Option<(Seq<char>, Seq<char>)> {
    let parts = match mount {
        JsonView::Object(members) => if members.contains_key("type"@) && members.contains_key(
            "options"@,
        ) {
            Some((members["type"@], members["options"@]))
        } else {
            None
        },
        JsonView::Array(items) => if items.len() == 2 {
            Some((items[0], items[1]))
        } else {
            None
        },
        _ => None,
    };
    match parts {
        Some((kind, options)) => match (text_in(kind), options_version(options)) {
            (Some(kind), Some(version)) => Some((kind, version)),
            _ => None,
        },
        None => None,
    }
}

/// The engine that the description of a mount asks for, if it is a KV mount
/// of a known version.
pub open spec fn described_engine(mount: JsonView) -> Option<EngineType> {
    match mount_spec(mount) {
        Some((kind, version)) => if kind != "kv"@ {
            None
        } else if version == "1"@ {
            Some(EngineType::V1)
        } else if version == "2"@ {
            Some(EngineType::V2)
        } else {
            None
        },
        None => None,
    }
}

/// The KV mounts among all the described mounts.
pub open spec fn kv_mounts(members: Map<Seq<char>, JsonView>) -> Map<Seq<char>, EngineType> {
    Map::new(
        |mount: Seq<char>|
            members.contains_key(mount) && described_engine(members[mount]) is Some,
        |mount: Seq<char>| described_engine(members[mount])->0,
    )
}

/// The KV mounts that a text lists, or why it cannot be read.
pub open spec fn listed_mounts(text: Seq<char>) -> Result<Map<Seq<char>, EngineType>, Seq<char>> {
    match (json_members(text), json_trailing(text)) {
        (Err(reason), _) => Err(reason),
        (Ok(_), Some(reason)) => Err(reason),
        (Ok(members), None) => Ok(kv_mounts(members)),
    }
}

/// Whether the options of a mount are of a version: an object with the version
/// under `version`, or an array of the version alone.
pub open spec fn options_say(options: JsonView, version: Seq<char>) -> bool {
    match options {
        JsonView::Object(members) => members.contains_key("version"@) && members["version"@]
            == JsonView::Text(version),
        JsonView::Array(items) => items == seq![JsonView::Text(version)],
        _ => false,
    }
}

/// Whether the description of a mount says that it is a KV mount of a version: an
/// object with `kv` under `type` and such options under `options`, or an array of
/// the two.
pub open spec fn says_kv(mount: JsonView, version: Seq<char>) -> bool {
    match mount {
        JsonView::Object(members) => {
            &&& members.contains_key("type"@) && members["type"@] == JsonView::Text("kv"@)
            &&& members.contains_key("options"@) && options_say(members["options"@], version)
        },
        JsonView::Array(items) => {
            &&& items.len() == 2
            &&& items[0] == JsonView::Text("kv"@)
            &&& options_say(items[1], version)
        },
        _ => false,
    }
}

/// Among the described mounts, exactly those are listed that are KV mounts of
/// version 1 or 2, each with its version.
pub proof fn law_kv_mounts(members: Map<Seq<char>, JsonView>, mount: Seq<char>)
    ensures
        kv_mounts(members).contains_key(mount) && kv_mounts(members)[mount] == EngineType::V1
            <==> members.contains_key(mount) && says_kv(members[mount], "1"@),
        kv_mounts(members).contains_key(mount) && kv_mounts(members)[mount] == EngineType::V2
            <==> members.contains_key(mount) && says_kv(members[mount], "2"@),
{
    reveal_strlit("1");
    reveal_strlit("2");
    assert("1"@[0] != "2"@[0]);
    if members.contains_key(mount) {
        lemma_says_kv(members[mount], "1"@);
        lemma_says_kv(members[mount], "2"@);
    }
}

/// What the options of a mount say is the version that they give.
proof fn lemma_options_say(options: JsonView, version: Seq<char>)
    ensures
        options_say(options, version) <==> options_version(options) == Some(version),
{
    if let JsonView::Array(items) = options {
        if items.len() == 1 {
            assert(items =~= seq![items[0]]);
        }
        if items == seq![JsonView::Text(version)] {
            assert(items.len() == 1 && items[0] == JsonView::Text(version));
        }
    }
}

/// What the description of a mount says is the type and the version that it
/// gives.
proof fn lemma_says_kv(mount: JsonView, version: Seq<char>)
    ensures
        says_kv(mount, version) <==> mount_spec(mount) == Some(("kv"@, version)),
{
    match mount {
        JsonView::Object(members) => {
            lemma_options_say(members["options"@], version);
        },
        JsonView::Array(items) => {
            lemma_options_say(items[1], version);
        },
        _ => {},
    }
}

/// A text lists the KV mounts of the JSON object that it is; one that is none, or
/// goes on behind it, lists nothing, for the reason that the reader of JSON gives.
pub proof fn law_listed_mounts(text: Seq<char>)
    ensures
        json_members(text) is Ok && json_trailing(text) is None ==> listed_mounts(text) == Ok::<
            Map<Seq<char>, EngineType>,
            Seq<char>,
        >(kv_mounts(json_members(text)->Ok_0)),
        json_members(text) matches Err(reason) ==> listed_mounts(text) == Err::<
            Map<Seq<char>, EngineType>,
            Seq<char>,
        >(reason),
        json_members(text) is Ok && json_trailing(text) is Some ==> listed_mounts(text) == Err::<
            Map<Seq<char>, EngineType>,
            Seq<char>,
        >(json_trailing(text)->0),
{
}

/// Reads [`options_version`].
fn read_version(options: &Json) -> (version: Option<&String>)
    ensures
        match version {
            Some(version) => options_version(options@) == Some(version@),
            None => options_version(options@) is None,
        },
{
    match options {
        Json::Object(members) => {
            proof {
                lemma_members_view(members@);
            }
            match last_member(members, "version") {
                Some(Json::Text(version)) => Some(version),
                _ => None,
            }
        },
        Json::Array(items) => {
            proof {
                lemma_items_view(items@);
            }
            if items.len() == 1 {
                match &items[0] {
                    Json::Text(version) => Some(version),
                    _ => None,
                }
            } else {
                None
            }
        },
        _ => None,
    }
}

/// The member of an object with the given name.
fn last_member<'a>(members: &'a Vec<(String, Json)>, name: &str) -> (member: Option<&'a Json>)
    ensures
        match member {
            Some(member) => entries_map(members@).contains_key(name@) && *member == entries_map(
                members@,
            )[name@],
            None => !entries_map(members@).contains_key(name@),
        },
{
    let mut i: usize = members.len();
    while i > 0
        invariant
            i <= members@.len(),
            forall|k: int| i <= k < members@.len() ==> members@[k].0@ != name@,
        decreases i,
    {
        i = i - 1;
        if same_text(members[i].0.as_str(), name) {
            proof {
                lemma_entries_value(members@, i as int);
            }
            return Some(&members[i].1);
        }
    }
    proof {
        lemma_entries_domain(members@, name@);
    }
    None
}

/// Reads [`described_engine`].
fn read_engine(mount: &Json) -> (engine: Option<EngineType>)
    ensures
        engine == described_engine(mount@),
{
    let parts = match mount {
        Json::Object(members) => {
            proof {
                lemma_members_view(members@);
            }
            match (last_member(members, "type"), last_member(members, "options")) {
                (Some(kind), Some(options)) => Some((kind, options)),
                _ => None,
            }
        },
        Json::Array(items) => {
            proof {
                lemma_items_view(items@);
            }
            if items.len() == 2 {
                Some((&items[0], &items[1]))
            } else {
                None
            }
        },
        _ => None,
    };
    match parts {
        Some((Json::Text(kind), options)) => match read_version(options) {
            Some(version) => if !same_text(kind.as_str(), "kv") {
                None
            } else if same_text(version.as_str(), "1") {
                Some(EngineType::V1)
            } else if same_text(version.as_str(), "2") {
                Some(EngineType::V2)
            } else {
                None
            },
            None => None,
        },
        _ => None,
    }
}

impl MountInfo {
    /// Mount information from an explicit map.
    pub fn from_map(mounts: StringMap<EngineType>) -> (info: Self)
        ensures
            info@ == mounts@,
    {
        MountInfo { mounts }
    }

    /// The engine of a mount, which is KV version 1 where none is listed.
    pub fn engine_type(&self, mount: &str) -> (engine: EngineType)
        ensures
            engine == engine_of(self@, mount@),
            self@.contains_key(mount@ + "/"@) ==> engine == self@[mount@ + "/"@],
            !self@.contains_key(mount@ + "/"@) ==> engine == EngineType::V1,
    {
        let mut key = mount.to_owned();
        key.append("/");
        match self.mounts.get(key.as_str()) {
            Some(engine) => *engine,
            None => EngineType::V1,
        }
    }

    /// The path of the Vault API under which a secret is read.
    pub fn secret_path(&self, secret: &Secret) -> (path: String)
        ensures
            path@ == request_path(self@, secret@),
    {
        let mut path = "/v1/".to_owned();
        path.append(secret.mount.as_str());
        match self.engine_type(secret.mount.as_str()) {
            EngineType::V1 => path.append("/"),
            EngineType::V2 => path.append("/data/"),
        }
        path.append(secret.path.as_str());
        path
    }

    /// The KV mounts among all the described mounts.
    pub fn from_members(members: &StringMap<Json>) -> (info: Self)
        ensures
            info@ == kv_mounts(json_map(members@)),
    {
        let entries = members.entries();
        let mut mounts: StringMap<EngineType> = StringMap::new();
        let mut i: usize = 0;
        assert(mounts@ =~= kv_mounts(json_map(entries_map(entries@.take(0)))));
        while i < entries.len()
            invariant
                i <= entries@.len(),
                crate::string_map::distinct_keys(entries@),
                mounts@ == kv_mounts(json_map(entries_map(entries@.take(i as int)))),
            decreases entries@.len() - i,
        {
            let ghost seen = entries_map(entries@.take(i as int));
            let ghost before = mounts@;
            let ghost name = entries@[i as int].0@;
            proof {
                lemma_entries_domain(entries@.take(i as int), name);
                assert(!seen.contains_key(name));
            }
            if let Some(engine) = read_engine(&entries[i].1) {
                mounts.insert(entries[i].0.clone(), engine);
            }
            i = i + 1;
            proof {
                let now = entries_map(entries@.take(i as int));
                assert(entries@.take(i as int).drop_last() =~= entries@.take(i - 1));
                assert(now == seen.insert(name, entries@[i - 1].1));
                assert(mounts@ =~= kv_mounts(json_map(now)));
            }
        }
        assert(entries@.take(i as int) =~= entries@);
        MountInfo { mounts }
    }

    /// Reads the text in which Vault lists its mounts.
    pub fn from_response(text: &str) -> (info: Result<Self, String>)
        ensures
            match info {
                Ok(info) => listed_mounts(text@) == Ok::<Map<Seq<char>, EngineType>, Seq<char>>(
                    info@,
                ),
                Err(reason) => listed_mounts(text@) == Err::<
                    Map<Seq<char>, EngineType>,
                    Seq<char>,
                >(reason@),
            },
    {
        match read_object(text) {
            Ok(object) => match object.trailing {
                Some(reason) => Err(reason),
                None => Ok(MountInfo::from_members(&object.members)),
            },
            Err(reason) => Err(reason),
        }
    }
}

} // verus!
