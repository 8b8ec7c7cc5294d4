//! From the secrets file to the environment that the program runs in.

use vstd::prelude::*;
use vstd::string::*;

use crate::json::JsonView;
use crate::mount_info::{request_path, EngineType, MountInfo};
use crate::secrets_file::{file_contents, read_secrets_file, secret_views};
use crate::secrets_file::{Secret, SecretView, SecretsFileError};
use crate::string_map::StringMap;
use crate::text::{pair_views, same_text, text_views};
use crate::types::DuplicateBehavior;
use crate::vault_api::data::VaultData;
use crate::vault_api::error::{VaultError, VaultErrorView};
use crate::vault_api::resolver::{deduplicate, keep_first, merge_vars, resolve_secrets};
use crate::vault_api::resolver::{
    deduplicated, distinct_names, first_map, first_wins, has_name, holds_text, last_wins, leftmost,
    lookup, resolved, store_view, vars_map, VarView,
};
use crate::vault_api::resolver::{
    law_deduplicate_distinct, law_deduplicated_distinct, law_deduplicated_names,
    law_first_duplicate_is_reported, law_first_wins_values, law_found_text, law_last_wins_values,
    law_resolved_all, lemma_duplicate_name, lemma_leftmost, lemma_vars_map_names,
};

verus! {

/// Why a program could not be launched.
#[derive(Debug, Clone, PartialEq, Eq)]
pub enum LaunchError {
    /// The secrets file is of no use.
    SecretsFile(SecretsFileError),
    /// The secrets file asks for no secret.
    NoSecrets { file: String },
    /// There is no client for the server.
    Client(VaultError),
    /// The authentication failed.
    Authentication(VaultError),
    /// The mounts could not be had.
    MountInfo(VaultError),
    /// The secrets could not be had.
    Fetching(VaultError),
    /// The secrets that were fetched are not those that were asked for.
    Resolution(VaultError),
    /// Two secrets have the same variable name.
    Duplicate(VaultError),
}

impl LaunchError {
    /// What the error says.
    pub open spec fn said(self) -> Seq<char> {
        match self {
            LaunchError::SecretsFile(error) => "failed to read secrets file: "@ + error.said(),
            LaunchError::NoSecrets { file } => "no secrets specified in "@ + file@,
            LaunchError::Client(error) => "failed to create Vault client: "@ + error@.said(),
            LaunchError::Authentication(error) => "authentication failed: "@ + error@.said(),
            LaunchError::MountInfo(error) => "mount info discovery failed: "@ + error@.said(),
            LaunchError::Fetching(error) => "secret fetching failed: "@ + error@.said(),
            LaunchError::Resolution(error) => "secret resolution failed: "@ + error@.said(),
            LaunchError::Duplicate(error) => "duplicate variable check failed: "@ + error@.said(),
        }
    }

    /// What the error says.
    pub fn message(&self) -> (message: String)
        ensures
            message@ == self.said(),
    {
        let (intro, reason) = match self {
            LaunchError::SecretsFile(error) => ("failed to read secrets file: ", error.message()),
            LaunchError::NoSecrets { file } => ("no secrets specified in ", file.clone()),
            LaunchError::Client(error) => ("failed to create Vault client: ", error.message()),
            LaunchError::Authentication(error) => ("authentication failed: ", error.message()),
            LaunchError::MountInfo(error) => ("mount info discovery failed: ", error.message()),
            LaunchError::Fetching(error) => ("secret fetching failed: ", error.message()),
            LaunchError::Resolution(error) => ("secret resolution failed: ", error.message()),
            LaunchError::Duplicate(error) => (
                "duplicate variable check failed: ",
                error.message(),
            ),
        };
        let mut message = intro.to_owned();
        message.append(reason.as_str());
        message
    }
}

/// Why a program could not be launched: at which stage, and what went wrong there.
pub proof fn law_launch_errors(secrets: SecretsFileError, file: String, error: VaultError)
    ensures
        LaunchError::SecretsFile(secrets).said() == "failed to read secrets file: "@
            + secrets.said(),
        (LaunchError::NoSecrets { file }).said() == "no secrets specified in "@ + file@,
        LaunchError::Client(error).said() == "failed to create Vault client: "@ + error@.said(),
        LaunchError::Authentication(error).said() == "authentication failed: "@ + error@.said(),
        LaunchError::MountInfo(error).said() == "mount info discovery failed: "@ + error@.said(),
        LaunchError::Fetching(error).said() == "secret fetching failed: "@ + error@.said(),
        LaunchError::Resolution(error).said() == "secret resolution failed: "@ + error@.said(),
        LaunchError::Duplicate(error).said() == "duplicate variable check failed: "@
            + error@.said(),
{
}

/// The secrets that a file asks for, of which there has to be one.
///
/// `contents` is the text of the file, or why it could not be read.
pub fn load_secrets(file: &str, contents: Result<String, String>) -> (loaded: Result<
    Vec<Secret>,
    LaunchError,
>)
    ensures
        match (contents, loaded) {
            (Err(reason), Err(LaunchError::SecretsFile(SecretsFileError::Io(given)))) => given
                == reason,
            (Ok(text), Err(LaunchError::SecretsFile(SecretsFileError::Parse(reason)))) => {
                file_contents(text@) == Err::<Seq<SecretView>, Seq<char>>(reason@)
            },
            (Ok(text), Err(LaunchError::NoSecrets { file: named })) => named@ == file@
                && file_contents(text@) == Ok::<Seq<SecretView>, Seq<char>>(Seq::empty()),
            (Ok(text), Ok(secrets)) => secrets@.len() > 0 && file_contents(text@) == Ok::<
                Seq<SecretView>,
                Seq<char>,
            >(secret_views(secrets@)),
            _ => false,
        },
{
    match read_secrets_file(contents) {
        Err(error) => Err(LaunchError::SecretsFile(error)),
        Ok(secrets) => if secrets.len() == 0 {
            assert(secret_views(secrets@) =~= Seq::empty());
            Err(LaunchError::NoSecrets { file: file.to_owned() })
        } else {
            Ok(secrets)
        },
    }
}

/// The variables of the parent environment that are not on the blacklist.
pub open spec fn kept_vars(parent: Seq<VarView>, blacklist: Seq<Seq<char>>) -> Seq<VarView>
    decreases parent.len(),
{
    if parent.len() == 0 {
        Seq::empty()
    } else if blacklist.contains(parent.last().0) {
        kept_vars(parent.drop_last(), blacklist)
    } else {
        kept_vars(parent.drop_last(), blacklist).push(parent.last())
    }
}

/// The environment in which a secret prevails over an inherited variable with
/// the same name: the secrets, before them what is inherited, each name once and
/// with the value that it has last.
pub open spec fn program_env(
    inherit: bool,
    blacklist: Seq<Seq<char>>,
    parent: Seq<VarView>,
    secrets: Seq<VarView>,
) -> Seq<VarView> {
    last_wins(
        if inherit {
            kept_vars(parent, blacklist) + secrets
        } else {
            secrets
        },
    )
}

/// The environment in which an inherited variable prevails over a secret with
/// the same name: what is inherited, behind it the secrets, each name once and
/// with the value that it has first.
pub open spec fn keeping_env(
    blacklist: Seq<Seq<char>>,
    parent: Seq<VarView>,
    secrets: Seq<VarView>,
) -> Seq<VarView> {
    first_wins(kept_vars(parent, blacklist) + secrets)
}

/// The environment of the program. Where existing variables are to be kept, an
/// inherited one prevails over a secret with the same name; under any other
/// behavior the secret does. The strict behavior is about secrets that share a
/// name with each other, and lets a secret take the place of an inherited
/// variable.
pub open spec fn merged_env(
    behavior: DuplicateBehavior,
    inherit: bool,
    blacklist: Seq<Seq<char>>,
    parent: Seq<VarView>,
    secrets: Seq<VarView>,
) -> Seq<VarView> {
    if inherit && behavior == DuplicateBehavior::Keep {
        keeping_env(blacklist, parent, secrets)
    } else {
        program_env(inherit, blacklist, parent, secrets)
    }
}

/// Whether a text is listed.
fn is_listed(list: &Vec<String>, text: &str) -> (found: bool)
    ensures
        found == text_views(list@).contains(text@),
{
    let mut i: usize = 0;
    while i < list.len()
        invariant
            i <= list@.len(),
            forall|k: int| 0 <= k < i ==> #[trigger] text_views(list@)[k] != text@,
        decreases list@.len() - i,
    {
        if same_text(list[i].as_str(), text) {
            assert(text_views(list@)[i as int] == text@);
            return true;
        }
        i = i + 1;
    }
    false
}

/// The variables whose names are not on the blacklist.
pub fn unlisted_vars(vars: &Vec<(String, String)>, blacklist: &Vec<String>) -> (kept: Vec<
    (String, String),
>)
    ensures
        pair_views(kept@) == kept_vars(pair_views(vars@), text_views(blacklist@)),
{
    let ghost all = pair_views(vars@);
    let ghost listed = text_views(blacklist@);
    let mut kept: Vec<(String, String)> = Vec::new();
    let mut i: usize = 0;
    assert(pair_views(kept@) =~= kept_vars(all.take(0), listed));
    while i < vars.len()
        invariant
            i <= vars@.len(),
            all == pair_views(vars@),
            listed == text_views(blacklist@),
            pair_views(kept@) == kept_vars(all.take(i as int), listed),
        decreases vars@.len() - i,
    {
        let ghost before = pair_views(kept@);
        if !is_listed(blacklist, vars[i].0.as_str()) {
            kept.push((vars[i].0.clone(), vars[i].1.clone()));
            assert(pair_views(kept@) =~= before.push(all[i as int]));
        }
        i = i + 1;
        assert(all.take(i as int).drop_last() =~= all.take(i - 1));
    }
    assert(all.take(i as int) =~= all);
    kept
}

/// One list of variables behind another.
pub fn append_vars(first: Vec<(String, String)>, second: &Vec<(String, String)>) -> (both: Vec<
    (String, String),
>)
    ensures
        pair_views(both@) == pair_views(first@) + pair_views(second@),
{
    let mut both = first;
    let mut i: usize = 0;
    assert(pair_views(first@) + pair_views(second@).take(0) =~= pair_views(first@));
    while i < second.len()
        invariant
            i <= second@.len(),
            pair_views(both@) == pair_views(first@) + pair_views(second@).take(i as int),
        decreases second@.len() - i,
    {
        let ghost before = pair_views(both@);
        both.push((second[i].0.clone(), second[i].1.clone()));
        assert(pair_views(both@) =~= before.push(pair_views(second@)[i as int]));
        i = i + 1;
        assert(pair_views(both@) =~= pair_views(first@) + pair_views(second@).take(i as int));
    }
    assert(pair_views(second@).take(i as int) =~= pair_views(second@));
    both
}

/// Builds an environment in which a secret prevails over an inherited variable
/// with the same name.
pub fn build_environment(
    inherit: bool,
    blacklist: &Vec<String>,
    parent: &Vec<(String, String)>,
    secrets: Vec<(String, String)>,
) -> (env: Vec<(String, String)>)
    ensures
        pair_views(env@) == program_env(
            inherit,
            text_views(blacklist@),
            pair_views(parent@),
            pair_views(secrets@),
        ),
{
    if inherit {
        merge_vars(append_vars(unlisted_vars(parent, blacklist), &secrets))
    } else {
        merge_vars(secrets)
    }
}

/// Builds an environment in which an inherited variable prevails over a secret
/// with the same name.
pub fn build_keeping_environment(
    blacklist: &Vec<String>,
    parent: &Vec<(String, String)>,
    secrets: Vec<(String, String)>,
) -> (env: Vec<(String, String)>)
    ensures
        pair_views(env@) == keeping_env(
            text_views(blacklist@),
            pair_views(parent@),
            pair_views(secrets@),
        ),
{
    keep_first(append_vars(unlisted_vars(parent, blacklist), &secrets))
}

/// What fetched secrets and the parent environment make for the program.
pub open spec fn launched(
    mounts: Map<Seq<char>, EngineType>,
    secrets: Seq<SecretView>,
    store: Map<Seq<char>, Map<Seq<char>, JsonView>>,
    behavior: DuplicateBehavior,
    inherit: bool,
    blacklist: Seq<Seq<char>>,
    parent: Seq<VarView>,
) -> Result<Seq<VarView>, VaultErrorView> {
    match resolved(mounts, store, secrets) {
        Err(error) => Err(error),
        Ok(vars) => match deduplicated(vars, behavior) {
            Err(error) => Err(error),
            Ok(vars) => Ok(merged_env(behavior, inherit, blacklist, parent, vars)),
        },
    }
}

/// Whether the variable at `at` of the parent environment is neither on the blacklist
/// nor named like a secret or like another variable there.
pub open spec fn inherited_alone(
    blacklist: Seq<Seq<char>>,
    secrets: Seq<SecretView>,
    parent: Seq<VarView>,
    at: int,
) -> bool {
    &&& !blacklist.contains(parent[at].0)
    &&& forall|i: int| 0 <= i < secrets.len() ==> (#[trigger] secrets[i]).var_name != parent[at].0
    &&& forall|i: int|
        0 <= i < parent.len() && i != at ==> (#[trigger] parent[i]).0 != parent[at].0
}

/// The environment of the program, from the secrets that were asked for, the
/// data that was fetched, and the parent environment.
///
/// The behavior says what becomes of secrets with the same name, and whether an
/// inherited variable is kept where a secret has its name. The strict behavior
/// is about secrets alone: under it a secret takes the place of an inherited
/// variable, as it does under overwriting.
pub fn launch_environment(
    mount_info: &MountInfo,
    secrets: &Vec<Secret>,
    vault_data: &StringMap<VaultData>,
    behavior: DuplicateBehavior,
    inherit: bool,
    blacklist: &Vec<String>,
    parent: &Vec<(String, String)>,
) -> (env: Result<Vec<(String, String)>, LaunchError>)
    ensures
        match env {
            Ok(env) => launched(
                mount_info@,
                secret_views(secrets@),
                store_view(vault_data@),
                behavior,
                inherit,
                text_views(blacklist@),
                pair_views(parent@),
            ) == Ok::<Seq<VarView>, VaultErrorView>(pair_views(env@)),
            Err(LaunchError::Resolution(error)) => resolved(
                mount_info@,
                store_view(vault_data@),
                secret_views(secrets@),
            ) == Err::<Seq<VarView>, VaultErrorView>(error@),
            Err(LaunchError::Duplicate(error)) => {
                &&& resolved(mount_info@, store_view(vault_data@), secret_views(secrets@)) is Ok
                &&& deduplicated(
                    resolved(
                        mount_info@,
                        store_view(vault_data@),
                        secret_views(secrets@),
                    )->Ok_0,
                    behavior,
                ) == Err::<Seq<VarView>, VaultErrorView>(error@)
            },
            _ => false,
        },
        env matches Ok(env) ==> forall|k: int|
            inherit && 0 <= k < parent@.len() && inherited_alone(
                text_views(blacklist@),
                secret_views(secrets@),
                pair_views(parent@),
                k,
            ) ==> pair_views(env@).contains(#[trigger] pair_views(parent@)[k]),
{
    proof {
        let all = pair_views(parent@);
        let listed = text_views(blacklist@);
        let asked = secret_views(secrets@);
        let store = store_view(vault_data@);
        let made = launched(mount_info@, asked, store, behavior, inherit, listed, all);
        if inherit && made is Ok {
            assert forall|k: int|
                0 <= k < all.len() && inherited_alone(listed, asked, all, k) implies (
            made->Ok_0).contains(#[trigger] all[k]) by {
                law_inherited_reaches_the_program(
                    mount_info@,
                    asked,
                    store,
                    behavior,
                    listed,
                    all,
                    k,
                );
            }
        }
    }
    match resolve_secrets(mount_info, secrets, vault_data) {
        Err(error) => Err(LaunchError::Resolution(error)),
        Ok(vars) => match deduplicate(vars, behavior) {
            Err(error) => Err(LaunchError::Duplicate(error)),
            Ok(vars) => if inherit && behavior == DuplicateBehavior::Keep {
                Ok(build_keeping_environment(blacklist, parent, vars))
            } else {
                Ok(build_environment(inherit, blacklist, parent, vars))
            },
        },
    }
}

/// A list behind another describes the map in which its values prevail.
proof fn lemma_vars_map_concat(first: Seq<VarView>, second: Seq<VarView>)
    ensures
        vars_map(first + second) == vars_map(first).union_prefer_right(vars_map(second)),
    decreases second.len(),
{
    if second.len() == 0 {
        assert(first + second =~= first);
        assert(vars_map(first).union_prefer_right(vars_map(second)) =~= vars_map(first));
    } else {
        lemma_vars_map_concat(first, second.drop_last());
        assert((first + second).drop_last() =~= first + second.drop_last());
        assert(vars_map(first + second) =~= vars_map(first).union_prefer_right(vars_map(second)));
    }
}

/// What is kept of the parent environment describes its map without the names
/// on the blacklist.
proof fn lemma_kept_map(parent: Seq<VarView>, blacklist: Seq<Seq<char>>)
    ensures
        vars_map(kept_vars(parent, blacklist)) == vars_map(parent).remove_keys(blacklist.to_set()),
    decreases parent.len(),
{
    let kept = kept_vars(parent, blacklist);
    assert forall|name: Seq<char>| blacklist.to_set().contains(name) == blacklist.contains(
        name,
    ) by {}
    if parent.len() > 0 {
        lemma_kept_map(parent.drop_last(), blacklist);
        if !blacklist.contains(parent.last().0) {
            assert(kept.drop_last() =~= kept_vars(parent.drop_last(), blacklist));
        }
    }
    assert(vars_map(kept) =~= vars_map(parent).remove_keys(blacklist.to_set()));
}

/// The environment in which secrets prevail holds every secret under its name,
/// and besides, where it inherits, every variable of the parent environment that
/// is neither on the blacklist nor named like a secret; it holds nothing else,
/// and no name twice.
pub proof fn law_program_env(
    inherit: bool,
    blacklist: Seq<Seq<char>>,
    parent: Seq<VarView>,
    secrets: Seq<VarView>,
)
    ensures
        distinct_names(program_env(inherit, blacklist, parent, secrets)),
        vars_map(program_env(inherit, blacklist, parent, secrets)) == (if inherit {
            vars_map(parent).remove_keys(blacklist.to_set())
        } else {
            Map::empty()
        }).union_prefer_right(vars_map(secrets)),
{
    let vars = if inherit {
        kept_vars(parent, blacklist) + secrets
    } else {
        secrets
    };
    law_deduplicated_names(vars);
    law_last_wins_values(vars);
    if inherit {
        lemma_kept_map(parent, blacklist);
        lemma_vars_map_concat(kept_vars(parent, blacklist), secrets);
    } else {
        assert(vars_map(secrets) =~= Map::<Seq<char>, Seq<char>>::empty().union_prefer_right(
            vars_map(secrets),
        ));
    }
}

/// A list behind another describes the map in which the values of the other
/// prevail, where the first value of a name counts.
proof fn lemma_first_map_concat(first: Seq<VarView>, second: Seq<VarView>)
    ensures
        first_map(first + second) == first_map(second).union_prefer_right(first_map(first)),
    decreases second.len(),
{
    if second.len() == 0 {
        assert(first + second =~= first);
        assert(first_map(second).union_prefer_right(first_map(first)) =~= first_map(first));
    } else {
        lemma_first_map_concat(first, second.drop_last());
        assert((first + second).drop_last() =~= first + second.drop_last());
        assert(first_map(first + second) =~= first_map(second).union_prefer_right(
            first_map(first),
        ));
    }
}

/// What is kept of the parent environment describes its map without the names
/// on the blacklist, where the first value of a name counts.
proof fn lemma_kept_first_map(parent: Seq<VarView>, blacklist: Seq<Seq<char>>)
    ensures
        first_map(kept_vars(parent, blacklist)) == first_map(parent).remove_keys(
            blacklist.to_set(),
        ),
    decreases parent.len(),
{
    let kept = kept_vars(parent, blacklist);
    assert forall|name: Seq<char>| blacklist.to_set().contains(name) == blacklist.contains(
        name,
    ) by {}
    if parent.len() > 0 {
        lemma_kept_first_map(parent.drop_last(), blacklist);
        if !blacklist.contains(parent.last().0) {
            assert(kept.drop_last() =~= kept_vars(parent.drop_last(), blacklist));
        }
    }
    assert(first_map(kept) =~= first_map(parent).remove_keys(blacklist.to_set()));
}

/// The environment in which inherited variables prevail holds every variable of
/// the parent environment that is not on the blacklist, and besides every secret
/// that is not named like one of those; it holds nothing else, and no name
/// twice.
pub proof fn law_keeping_env(
    blacklist: Seq<Seq<char>>,
    parent: Seq<VarView>,
    secrets: Seq<VarView>,
)
    ensures
        distinct_names(keeping_env(blacklist, parent, secrets)),
        vars_map(keeping_env(blacklist, parent, secrets)) == first_map(
            secrets,
        ).union_prefer_right(first_map(parent).remove_keys(blacklist.to_set())),
{
    let vars = kept_vars(parent, blacklist) + secrets;
    law_deduplicated_names(vars);
    law_first_wins_values(vars);
    lemma_kept_first_map(parent, blacklist);
    lemma_first_map_concat(kept_vars(parent, blacklist), secrets);
}

/// The first variable with a name gives the first value of the name.
proof fn lemma_first_value(vars: Seq<VarView>, at: int)
    requires
        0 <= at < vars.len(),
        forall|i: int| 0 <= i < at ==> (#[trigger] vars[i]).0 != vars[at].0,
    ensures
        first_map(vars).contains_key(vars[at].0),
        first_map(vars)[vars[at].0] == vars[at].1,
    decreases vars.len(),
{
    let rest = vars.drop_last();
    if at < rest.len() {
        assert forall|i: int| 0 <= i < at implies (#[trigger] rest[i]).0 != rest[at].0 by {
            assert(vars[i].0 != vars[at].0);
        }
        lemma_first_value(rest, at);
    } else {
        lemma_first_map_names(rest, vars[at].0);
        if has_name(rest, vars[at].0) {
            let i = choose|i: int| 0 <= i < rest.len() && (#[trigger] rest[i]).0 == vars[at].0;
            assert(vars[i].0 != vars[at].0);
        }
    }
}

/// The names of the described map are the names of the list.
proof fn lemma_first_map_names(vars: Seq<VarView>, name: Seq<char>)
    ensures
        first_map(vars).contains_key(name) <==> has_name(vars, name),
{
    lemma_vars_map_names(vars, name);
    lemma_same_names(vars);
}

/// Whichever value of a name counts, the names are the same.
proof fn lemma_same_names(vars: Seq<VarView>)
    ensures
        first_map(vars).dom() == vars_map(vars).dom(),
    decreases vars.len(),
{
    if vars.len() > 0 {
        lemma_same_names(vars.drop_last());
    }
    assert(first_map(vars).dom() =~= vars_map(vars).dom());
}

/// Where existing variables are to be kept, every inherited variable that is not
/// on the blacklist reaches the program with its own value, whatever secrets
/// there are. Of inherited variables with the same name the first counts.
pub proof fn law_inherited_is_kept(
    mounts: Map<Seq<char>, EngineType>,
    secrets: Seq<SecretView>,
    store: Map<Seq<char>, Map<Seq<char>, JsonView>>,
    blacklist: Seq<Seq<char>>,
    parent: Seq<VarView>,
    at: int,
)
    requires
        launched(
            mounts,
            secrets,
            store,
            DuplicateBehavior::Keep,
            true,
            blacklist,
            parent,
        ) is Ok,
        0 <= at < parent.len(),
        !blacklist.contains(parent[at].0),
        forall|i: int| 0 <= i < at ==> (#[trigger] parent[i]).0 != parent[at].0,
    ensures
        ({
            let env = vars_map(
                launched(
                    mounts,
                    secrets,
                    store,
                    DuplicateBehavior::Keep,
                    true,
                    blacklist,
                    parent,
                )->Ok_0,
            );
            env.contains_key(parent[at].0) && env[parent[at].0] == parent[at].1
        }),
{
    let vars = resolved(mounts, store, secrets)->Ok_0;
    law_keeping_env(blacklist, parent, first_wins(vars));
    lemma_first_value(parent, at);
}

/// In the environment in which secrets prevail, a secret has the place of an
/// inherited variable with the same name.
pub proof fn law_secret_wins(
    inherit: bool,
    blacklist: Seq<Seq<char>>,
    parent: Seq<VarView>,
    secrets: Seq<VarView>,
    name: Seq<char>,
)
    requires
        has_name(secrets, name),
    ensures
        vars_map(program_env(inherit, blacklist, parent, secrets)).contains_key(name),
        vars_map(program_env(inherit, blacklist, parent, secrets))[name] == vars_map(
            secrets,
        )[name],
{
    law_program_env(inherit, blacklist, parent, secrets);
    lemma_vars_map_names(secrets, name);
}

/// Whatever the behavior, no name stands twice in the environment of the
/// program.
pub proof fn law_no_name_twice(
    behavior: DuplicateBehavior,
    inherit: bool,
    blacklist: Seq<Seq<char>>,
    parent: Seq<VarView>,
    secrets: Seq<VarView>,
)
    ensures
        distinct_names(merged_env(behavior, inherit, blacklist, parent, secrets)),
{
    law_program_env(inherit, blacklist, parent, secrets);
    law_keeping_env(blacklist, parent, secrets);
}

/// Whatever the behavior, a variable on the blacklist does not reach the
/// program, unless a secret has its name.
pub proof fn law_blacklisted_is_dropped(
    behavior: DuplicateBehavior,
    inherit: bool,
    blacklist: Seq<Seq<char>>,
    parent: Seq<VarView>,
    secrets: Seq<VarView>,
    name: Seq<char>,
)
    requires
        blacklist.contains(name),
        !has_name(secrets, name),
    ensures
        !has_name(merged_env(behavior, inherit, blacklist, parent, secrets), name),
{
    law_program_env(inherit, blacklist, parent, secrets);
    law_keeping_env(blacklist, parent, secrets);
    lemma_vars_map_names(secrets, name);
    lemma_first_map_names(secrets, name);
    lemma_vars_map_names(merged_env(behavior, inherit, blacklist, parent, secrets), name);
    assert(blacklist.to_set().contains(name));
}

/// A program that inherits nothing runs with the secrets alone, in their order.
pub proof fn law_secrets_alone(
    blacklist: Seq<Seq<char>>,
    parent: Seq<VarView>,
    secrets: Seq<VarView>,
)
    requires
        distinct_names(secrets),
    ensures
        program_env(false, blacklist, parent, secrets) == secrets,
{
    law_deduplicate_distinct(secrets);
}

/// Among variables without repeated names, each has its own value.
proof fn lemma_distinct_value(vars: Seq<VarView>, at: int)
    requires
        distinct_names(vars),
        0 <= at < vars.len(),
    ensures
        vars_map(vars).contains_key(vars[at].0),
        vars_map(vars)[vars[at].0] == vars[at].1,
    decreases vars.len(),
{
    let rest = vars.drop_last();
    if at < rest.len() {
        assert forall|i: int, j: int| 0 <= i < j < rest.len() implies (#[trigger] rest[i]).0 != (
        #[trigger] rest[j]).0 by {
            assert(vars[i].0 != vars[j].0);
        }
        lemma_distinct_value(rest, at);
        assert(vars[at].0 != vars[vars.len() - 1].0);
        assert(rest[at] == vars[at]);
    }
}

/// Where a program is launched at all under the strict behavior, every secret
/// that was asked for reaches it: under its variable name stands what Vault
/// holds under its key.
pub proof fn law_secrets_reach_the_program(
    mounts: Map<Seq<char>, EngineType>,
    secrets: Seq<SecretView>,
    store: Map<Seq<char>, Map<Seq<char>, JsonView>>,
    inherit: bool,
    blacklist: Seq<Seq<char>>,
    parent: Seq<VarView>,
    at: int,
)
    requires
        launched(
            mounts,
            secrets,
            store,
            DuplicateBehavior::Error,
            inherit,
            blacklist,
            parent,
        ) is Ok,
        0 <= at < secrets.len(),
    ensures
        lookup(mounts, store, secrets[at]) is Ok,
        ({
            let env = vars_map(
                launched(
                    mounts,
                    secrets,
                    store,
                    DuplicateBehavior::Error,
                    inherit,
                    blacklist,
                    parent,
                )->Ok_0,
            );
            env.contains_key(secrets[at].var_name) && env[secrets[at].var_name] == (lookup(
                mounts,
                store,
                secrets[at],
            )->Ok_0).1
        }),
{
    law_resolved_all(mounts, store, secrets);
    let vars = resolved(mounts, store, secrets)->Ok_0;
    assert(lookup(mounts, store, secrets[at]) == Ok::<VarView, VaultErrorView>(vars[at]));
    lemma_duplicate_name(vars);
    lemma_distinct_value(vars, at);
    law_program_env(inherit, blacklist, parent, vars);
}

/// What is left of variables was among them.
proof fn lemma_deduplicated_from(vars: Seq<VarView>, behavior: DuplicateBehavior, var: VarView)
    requires
        deduplicated(vars, behavior) is Ok,
        deduplicated(vars, behavior)->Ok_0.contains(var),
    ensures
        vars.contains(var),
    decreases vars.len(),
{
    if vars.len() > 0 && behavior != DuplicateBehavior::Error {
        let rest = vars.drop_last();
        let kept = deduplicated(vars, behavior)->Ok_0;
        let kept_rest = deduplicated(rest, behavior)->Ok_0;
        let i = choose|i: int| 0 <= i < kept.len() && kept[i] == var;
        assert(vars[vars.len() - 1] == vars.last());
        if var != vars.last() {
            assert(kept_rest.contains(var)) by {
                if i < kept_rest.len() {
                    assert(kept_rest[i] == var);
                }
            }
            lemma_deduplicated_from(rest, behavior, var);
            let k = choose|k: int| 0 <= k < rest.len() && rest[k] == var;
            assert(vars[k] == var);
        }
    }
}

/// Whatever the behavior, where a program is launched at all, every variable
/// name that was asked for is set: to what Vault holds for one of the secrets
/// with that name, unless an inherited variable with the name is kept.
pub proof fn law_every_name_is_set(
    mounts: Map<Seq<char>, EngineType>,
    secrets: Seq<SecretView>,
    store: Map<Seq<char>, Map<Seq<char>, JsonView>>,
    behavior: DuplicateBehavior,
    inherit: bool,
    blacklist: Seq<Seq<char>>,
    parent: Seq<VarView>,
    at: int,
)
    requires
        launched(mounts, secrets, store, behavior, inherit, blacklist, parent) is Ok,
        0 <= at < secrets.len(),
    ensures
        ({
            let name = secrets[at].var_name;
            let env = vars_map(
                launched(mounts, secrets, store, behavior, inherit, blacklist, parent)->Ok_0,
            );
            let kept = inherit && behavior == DuplicateBehavior::Keep && has_name(
                kept_vars(parent, blacklist),
                name,
            );
            env.contains_key(name) && (kept || exists|k: int|
                0 <= k < secrets.len() && lookup(mounts, store, #[trigger] secrets[k]) == Ok::<
                    VarView,
                    VaultErrorView,
                >((name, env[name])))
        }),
{
    law_resolved_all(mounts, store, secrets);
    let vars = resolved(mounts, store, secrets)->Ok_0;
    let kept = deduplicated(vars, behavior)->Ok_0;
    let name = secrets[at].var_name;
    let env = vars_map(merged_env(behavior, inherit, blacklist, parent, kept));
    assert(lookup(mounts, store, secrets[at]) == Ok::<VarView, VaultErrorView>(vars[at]));
    assert(has_name(vars, name));
    lemma_vars_map_names(vars, name);
    law_last_wins_values(vars);
    law_deduplicated_names(vars);
    lemma_vars_map_names(last_wins(vars), name);
    let i = choose|i: int|
        0 <= i < last_wins(vars).len() && (#[trigger] last_wins(vars)[i]).0 == name;
    if behavior == DuplicateBehavior::Keep {
        assert(kept[i].0 == name);
    }
    assert(has_name(kept, name));
    law_deduplicated_distinct(vars, behavior);
    let j = choose|j: int| 0 <= j < kept.len() && (#[trigger] kept[j]).0 == name;
    lemma_distinct_value(kept, j);
    law_program_env(inherit, blacklist, parent, kept);
    law_keeping_env(blacklist, parent, kept);
    law_first_wins_values(kept);
    law_deduplicate_distinct(kept);
    lemma_kept_first_map(parent, blacklist);
    lemma_first_map_names(kept_vars(parent, blacklist), name);
    lemma_first_map_names(kept, name);
    assert(kept.contains(kept[j]));
    lemma_deduplicated_from(vars, behavior, kept[j]);
    let k = choose|k: int| 0 <= k < vars.len() && vars[k] == kept[j];
    if !(inherit && behavior == DuplicateBehavior::Keep && has_name(
        kept_vars(parent, blacklist),
        name,
    )) {
        assert(env[name] == kept[j].1);
        assert(lookup(mounts, store, secrets[k]) == Ok::<VarView, VaultErrorView>(
            (name, env[name]),
        ));
    }
}

/// What is left of the parent environment is what is not on the blacklist, in
/// the order that it has there.
pub proof fn law_kept_vars(parent: Seq<VarView>, blacklist: Seq<Seq<char>>)
    ensures
        kept_vars(parent, blacklist) == parent.filter(|var: VarView| !blacklist.contains(var.0)),
    decreases parent.len(),
{
    reveal(Seq::filter);
    if parent.len() > 0 {
        law_kept_vars(parent.drop_last(), blacklist);
    }
}

/// A value of the described map is listed under its name.
proof fn lemma_vars_map_from(vars: Seq<VarView>, name: Seq<char>)
    requires
        vars_map(vars).contains_key(name),
    ensures
        vars.contains((name, vars_map(vars)[name])),
    decreases vars.len(),
{
    let rest = vars.drop_last();
    if vars.last().0 == name {
        assert(vars[vars.len() - 1] == (name, vars_map(vars)[name]));
    } else {
        lemma_vars_map_from(rest, name);
        let i = choose|i: int| 0 <= i < rest.len() && rest[i] == (name, vars_map(rest)[name]);
        assert(vars[i] == (name, vars_map(vars)[name]));
    }
}

/// A value of the described map is listed under its name, where the first value
/// of a name counts.
proof fn lemma_first_map_from(vars: Seq<VarView>, name: Seq<char>)
    requires
        first_map(vars).contains_key(name),
    ensures
        vars.contains((name, first_map(vars)[name])),
    decreases vars.len(),
{
    let rest = vars.drop_last();
    if first_map(rest).contains_key(name) {
        lemma_first_map_from(rest, name);
        let i = choose|i: int| 0 <= i < rest.len() && rest[i] == (name, first_map(rest)[name]);
        assert(vars[i] == (name, first_map(vars)[name]));
    } else {
        assert(vars[vars.len() - 1] == (name, first_map(vars)[name]));
    }
}

/// The last variable with a name gives the last value of the name.
proof fn lemma_last_value(vars: Seq<VarView>, at: int)
    requires
        0 <= at < vars.len(),
        forall|i: int| at < i < vars.len() ==> (#[trigger] vars[i]).0 != vars[at].0,
    ensures
        vars_map(vars).contains_key(vars[at].0),
        vars_map(vars)[vars[at].0] == vars[at].1,
    decreases vars.len(),
{
    let rest = vars.drop_last();
    if at < rest.len() {
        assert forall|i: int| at < i < rest.len() implies (#[trigger] rest[i]).0 != rest[at].0 by {
            assert(vars[i].0 != vars[at].0);
        }
        lemma_last_value(rest, at);
        assert(vars[vars.len() - 1].0 != vars[at].0);
    }
}

/// The environment of a launched program has each name once, and holds what the
/// map that it describes holds.
proof fn lemma_launched_map(
    mounts: Map<Seq<char>, EngineType>,
    secrets: Seq<SecretView>,
    store: Map<Seq<char>, Map<Seq<char>, JsonView>>,
    behavior: DuplicateBehavior,
    inherit: bool,
    blacklist: Seq<Seq<char>>,
    parent: Seq<VarView>,
)
    requires
        launched(mounts, secrets, store, behavior, inherit, blacklist, parent) is Ok,
    ensures
        ({
            let env = launched(mounts, secrets, store, behavior, inherit, blacklist, parent)->Ok_0;
            let vars = resolved(mounts, store, secrets)->Ok_0;
            let kept = deduplicated(vars, behavior)->Ok_0;
            &&& resolved(mounts, store, secrets) is Ok
            &&& deduplicated(vars, behavior) is Ok
            &&& distinct_names(env)
            &&& vars_map(kept) == first_map(kept)
            &&& vars_map(env) == (if inherit && behavior == DuplicateBehavior::Keep {
                vars_map(kept).union_prefer_right(
                    first_map(parent).remove_keys(blacklist.to_set()),
                )
            } else if inherit {
                vars_map(parent).remove_keys(blacklist.to_set()).union_prefer_right(
                    vars_map(kept),
                )
            } else {
                vars_map(kept)
            })
        }),
{
    let vars = resolved(mounts, store, secrets)->Ok_0;
    let kept = deduplicated(vars, behavior)->Ok_0;
    law_no_name_twice(behavior, inherit, blacklist, parent, kept);
    law_program_env(inherit, blacklist, parent, kept);
    law_keeping_env(blacklist, parent, kept);
    law_deduplicated_distinct(vars, behavior);
    law_deduplicate_distinct(kept);
    law_first_wins_values(kept);
    assert(Map::<Seq<char>, Seq<char>>::empty().union_prefer_right(vars_map(kept)) =~= vars_map(
        kept,
    ));
}

/// Where names do not repeat, a list holds what its map holds.
proof fn lemma_listed(vars: Seq<VarView>, name: Seq<char>, value: Seq<char>)
    requires
        distinct_names(vars),
    ensures
        vars.contains((name, value)) <==> vars_map(vars).contains_key(name) && vars_map(vars)[name]
            == value,
{
    if vars.contains((name, value)) {
        let i = choose|i: int| 0 <= i < vars.len() && vars[i] == (name, value);
        lemma_distinct_value(vars, i);
    }
    if vars_map(vars).contains_key(name) {
        lemma_vars_map_from(vars, name);
    }
}

/// What Vault holds for a secret is what the secret is resolved to.
proof fn lemma_resolved_from(
    mounts: Map<Seq<char>, EngineType>,
    secrets: Seq<SecretView>,
    store: Map<Seq<char>, Map<Seq<char>, JsonView>>,
)
    requires
        resolved(mounts, store, secrets) is Ok,
    ensures
        resolved(mounts, store, secrets)->Ok_0.len() == secrets.len(),
        forall|i: int|
            0 <= i < secrets.len() ==> {
                let var = resolved(mounts, store, secrets)->Ok_0[i];
                &&& var.0 == (#[trigger] secrets[i]).var_name
                &&& holds_text(store, request_path(mounts, secrets[i]), secrets[i].key, var.1)
            },
{
    law_resolved_all(mounts, store, secrets);
    let vars = resolved(mounts, store, secrets)->Ok_0;
    assert forall|i: int| 0 <= i < secrets.len() implies {
        &&& vars[i].0 == (#[trigger] secrets[i]).var_name
        &&& holds_text(store, request_path(mounts, secrets[i]), secrets[i].key, vars[i].1)
    } by {
        assert(lookup(mounts, store, secrets[i]) == Ok::<VarView, VaultErrorView>(vars[i]));
        law_found_text(mounts, store, secrets[i], vars[i].1);
    }
}

/// Whatever the behavior, a program that inherits gets every variable of the
/// parent environment that is neither on the blacklist nor named like a secret,
/// with its own value. Of inherited variables with the same name one counts: the
/// first where existing variables are kept, else the last.
pub proof fn law_inherited_reaches_the_program(
    mounts: Map<Seq<char>, EngineType>,
    secrets: Seq<SecretView>,
    store: Map<Seq<char>, Map<Seq<char>, JsonView>>,
    behavior: DuplicateBehavior,
    blacklist: Seq<Seq<char>>,
    parent: Seq<VarView>,
    at: int,
)
    requires
        launched(mounts, secrets, store, behavior, true, blacklist, parent) is Ok,
        0 <= at < parent.len(),
        !blacklist.contains(parent[at].0),
        forall|i: int| 0 <= i < secrets.len() ==> (#[trigger] secrets[i]).var_name != parent[at].0,
        behavior == DuplicateBehavior::Keep ==> forall|i: int|
            0 <= i < at ==> (#[trigger] parent[i]).0 != parent[at].0,
        behavior != DuplicateBehavior::Keep ==> forall|i: int|
            at < i < parent.len() ==> (#[trigger] parent[i]).0 != parent[at].0,
    ensures
        launched(mounts, secrets, store, behavior, true, blacklist, parent)->Ok_0.contains(
            parent[at],
        ),
{
    let name = parent[at].0;
    let env = launched(mounts, secrets, store, behavior, true, blacklist, parent)->Ok_0;
    let vars = resolved(mounts, store, secrets)->Ok_0;
    let kept = deduplicated(vars, behavior)->Ok_0;
    lemma_launched_map(mounts, secrets, store, behavior, true, blacklist, parent);
    lemma_resolved_from(mounts, secrets, store);
    if vars_map(kept).contains_key(name) {
        lemma_vars_map_from(kept, name);
        lemma_deduplicated_from(vars, behavior, (name, vars_map(kept)[name]));
        let k = choose|k: int| 0 <= k < vars.len() && vars[k] == (name, vars_map(kept)[name]);
        assert(secrets[k].var_name == name);
    }
    if behavior == DuplicateBehavior::Keep {
        lemma_first_value(parent, at);
    } else {
        lemma_last_value(parent, at);
    }
    assert(!blacklist.to_set().contains(name));
    lemma_listed(env, name, parent[at].1);
}

/// A launched program gets each secret under its variable name, with exactly the
/// text that Vault holds for it. Where secrets share a name, the first counts
/// under keeping and the last under overwriting; and under keeping an inherited
/// variable with the name counts before any secret.
#[verifier::rlimit(40)]
pub proof fn law_secret_reaches_the_program(
    mounts: Map<Seq<char>, EngineType>,
    secrets: Seq<SecretView>,
    store: Map<Seq<char>, Map<Seq<char>, JsonView>>,
    behavior: DuplicateBehavior,
    inherit: bool,
    blacklist: Seq<Seq<char>>,
    parent: Seq<VarView>,
    at: int,
    value: Seq<char>,
)
    requires
        launched(mounts, secrets, store, behavior, inherit, blacklist, parent) is Ok,
        0 <= at < secrets.len(),
        store[request_path(mounts, secrets[at])][secrets[at].key] == JsonView::Text(value),
        behavior == DuplicateBehavior::Overwrite ==> forall|i: int|
            at < i < secrets.len() ==> (#[trigger] secrets[i]).var_name != secrets[at].var_name,
        behavior == DuplicateBehavior::Keep ==> forall|i: int|
            0 <= i < at ==> (#[trigger] secrets[i]).var_name != secrets[at].var_name,
        behavior == DuplicateBehavior::Keep && inherit ==> blacklist.contains(
            secrets[at].var_name,
        ) || forall|i: int|
            0 <= i < parent.len() ==> (#[trigger] parent[i]).0 != secrets[at].var_name,
    ensures
        launched(
            mounts,
            secrets,
            store,
            behavior,
            inherit,
            blacklist,
            parent,
        )->Ok_0.contains((secrets[at].var_name, value)),
{
    let name = secrets[at].var_name;
    let env = launched(mounts, secrets, store, behavior, inherit, blacklist, parent)->Ok_0;
    let vars = resolved(mounts, store, secrets)->Ok_0;
    let kept = deduplicated(vars, behavior)->Ok_0;
    lemma_launched_map(mounts, secrets, store, behavior, inherit, blacklist, parent);
    lemma_resolved_from(mounts, secrets, store);
    assert(secrets[at].var_name == vars[at].0);
    assert(vars[at] == (name, value));
    match behavior {
        DuplicateBehavior::Error => {
            law_deduplicated_distinct(vars, behavior);
            lemma_distinct_value(vars, at);
        },
        DuplicateBehavior::Overwrite => {
            assert forall|i: int| at < i < vars.len() implies (#[trigger] vars[i]).0
                != vars[at].0 by {
                assert(secrets[i].var_name != name);
            }
            lemma_last_value(vars, at);
            law_last_wins_values(vars);
        },
        DuplicateBehavior::Keep => {
            assert forall|i: int| 0 <= i < at implies (#[trigger] vars[i]).0 != vars[at].0 by {
                assert(secrets[i].var_name != name);
            }
            lemma_first_value(vars, at);
            law_first_wins_values(vars);
            if inherit {
                if blacklist.contains(name) {
                    assert(blacklist.to_set().contains(name));
                } else {
                    lemma_first_map_names(parent, name);
                }
            }
        },
    }
    assert(vars_map(kept).contains_key(name) && vars_map(kept)[name] == value);
    lemma_listed(env, name, value);
}

/// A launched program gets nothing that neither Vault nor, where it inherits,
/// the parent environment holds under that name, and nothing inherited that is
/// on the blacklist. It gets no name twice.
#[verifier::rlimit(40)]
pub proof fn law_nothing_else_reaches_the_program(
    mounts: Map<Seq<char>, EngineType>,
    secrets: Seq<SecretView>,
    store: Map<Seq<char>, Map<Seq<char>, JsonView>>,
    behavior: DuplicateBehavior,
    inherit: bool,
    blacklist: Seq<Seq<char>>,
    parent: Seq<VarView>,
    at: int,
)
    requires
        launched(mounts, secrets, store, behavior, inherit, blacklist, parent) is Ok,
        0 <= at < launched(
            mounts,
            secrets,
            store,
            behavior,
            inherit,
            blacklist,
            parent,
        )->Ok_0.len(),
    ensures
        ({
            let env = launched(mounts, secrets, store, behavior, inherit, blacklist, parent)->Ok_0;
            let (name, value) = env[at];
            &&& forall|i: int| 0 <= i < at ==> (#[trigger] env[i]).0 != name
            &&& (exists|k: int|
                0 <= k < secrets.len() && (#[trigger] secrets[k]).var_name == name
                    && store[request_path(mounts, secrets[k])][secrets[k].key] == JsonView::Text(
                    value,
                )) || (inherit && parent.contains((name, value)) && !blacklist.contains(name))
        }),
{
    let env = launched(mounts, secrets, store, behavior, inherit, blacklist, parent)->Ok_0;
    let vars = resolved(mounts, store, secrets)->Ok_0;
    let kept = deduplicated(vars, behavior)->Ok_0;
    let name = env[at].0;
    let value = env[at].1;
    lemma_launched_map(mounts, secrets, store, behavior, inherit, blacklist, parent);
    lemma_resolved_from(mounts, secrets, store);
    lemma_distinct_value(env, at);
    let listed = blacklist.to_set();
    assert(listed.contains(name) == blacklist.contains(name));
    let keeps = inherit && behavior == DuplicateBehavior::Keep;
    if keeps && first_map(parent).remove_keys(listed).contains_key(name) {
        lemma_first_map_from(parent, name);
    } else if vars_map(kept).contains_key(name) {
        lemma_vars_map_from(kept, name);
        lemma_deduplicated_from(vars, behavior, (name, value));
        let k = choose|k: int| 0 <= k < vars.len() && vars[k] == (name, value);
        assert(secrets[k].var_name == name);
    } else {
        lemma_vars_map_from(parent, name);
    }
}

/// A launch succeeds if and only if Vault holds a text for every secret and,
/// under the strict behavior, no two secrets share a variable name.
#[verifier::rlimit(40)]
pub proof fn law_launch_succeeds(
    mounts: Map<Seq<char>, EngineType>,
    secrets: Seq<SecretView>,
    store: Map<Seq<char>, Map<Seq<char>, JsonView>>,
    behavior: DuplicateBehavior,
    inherit: bool,
    blacklist: Seq<Seq<char>>,
    parent: Seq<VarView>,
)
    ensures
        launched(mounts, secrets, store, behavior, inherit, blacklist, parent) is Ok <==> (forall|
            i: int,
        |
            0 <= i < secrets.len() ==> {
                let path = request_path(mounts, #[trigger] secrets[i]);
                &&& store.contains_key(path)
                &&& store[path].contains_key(secrets[i].key)
                &&& store[path][secrets[i].key] is Text
            }) && (behavior == DuplicateBehavior::Error ==> forall|i: int, j: int|
            0 <= i < j < secrets.len() ==> (#[trigger] secrets[i]).var_name != (
            #[trigger] secrets[j]).var_name),
{
    law_resolved_all(mounts, store, secrets);
    if resolved(mounts, store, secrets) is Ok {
        let vars = resolved(mounts, store, secrets)->Ok_0;
        lemma_resolved_from(mounts, secrets, store);
        law_deduplicated_distinct(vars, behavior);
        assert forall|i: int| 0 <= i < secrets.len() implies vars[i].0 == (
        #[trigger] secrets[i]).var_name by {}
        if distinct_names(vars) {
            assert forall|i: int, j: int| 0 <= i < j < secrets.len() implies (
            #[trigger] secrets[i]).var_name != (#[trigger] secrets[j]).var_name by {
                assert(vars[i].0 != vars[j].0);
            }
        } else {
            let (i, j) = choose|i: int, j: int|
                0 <= i < j < vars.len() && (#[trigger] vars[i]).0 == (#[trigger] vars[j]).0;
            assert(secrets[i].var_name == secrets[j].var_name);
        }
    } else {
        let i = choose|i: int|
            0 <= i < secrets.len() && lookup(mounts, store, #[trigger] secrets[i]) is Err;
        assert(lookup(mounts, store, secrets[i]) is Err);
    }
}

/// Under the strict behavior the first secret whose variable name an earlier one
/// has is reported by that name.
pub proof fn law_duplicate_is_reported(
    mounts: Map<Seq<char>, EngineType>,
    secrets: Seq<SecretView>,
    store: Map<Seq<char>, Map<Seq<char>, JsonView>>,
    inherit: bool,
    blacklist: Seq<Seq<char>>,
    parent: Seq<VarView>,
    first: int,
    at: int,
)
    requires
        resolved(mounts, store, secrets) is Ok,
        0 <= first < at < secrets.len(),
        secrets[first].var_name == secrets[at].var_name,
        forall|i: int, j: int|
            0 <= i < j < at ==> (#[trigger] secrets[i]).var_name != (
            #[trigger] secrets[j]).var_name,
    ensures
        launched(
            mounts,
            secrets,
            store,
            DuplicateBehavior::Error,
            inherit,
            blacklist,
            parent,
        ) == Err::<Seq<VarView>, VaultErrorView>(
            VaultErrorView::DuplicateVar(secrets[at].var_name),
        ),
{
    let vars = resolved(mounts, store, secrets)->Ok_0;
    lemma_resolved_from(mounts, secrets, store);
    assert forall|i: int| 0 <= i < secrets.len() implies vars[i].0 == (
    #[trigger] secrets[i]).var_name by {}
    assert(secrets[at].var_name == vars[at].0 && secrets[first].var_name == vars[first].0);
    assert forall|i: int, j: int| 0 <= i < j < at implies (#[trigger] vars[i]).0 != (
    #[trigger] vars[j]).0 by {
        assert(secrets[i].var_name != secrets[j].var_name);
    }
    law_first_duplicate_is_reported(vars, first, at);
}

/// Where no name occurs twice among the parent environment and the secrets, a
/// program that inherits gets, whatever the behavior, the variables of the
/// parent environment that are not on the blacklist, and behind them the
/// secrets, all in their order; one that inherits nothing gets the secrets.
#[verifier::rlimit(40)]
pub proof fn law_environment_in_order(
    mounts: Map<Seq<char>, EngineType>,
    secrets: Seq<SecretView>,
    store: Map<Seq<char>, Map<Seq<char>, JsonView>>,
    behavior: DuplicateBehavior,
    inherit: bool,
    blacklist: Seq<Seq<char>>,
    parent: Seq<VarView>,
    vars: Seq<VarView>,
)
    requires
        resolved(mounts, store, secrets) == Ok::<Seq<VarView>, VaultErrorView>(vars),
        forall|i: int, j: int|
            0 <= i < j < vars.len() ==> (#[trigger] vars[i]).0 != (#[trigger] vars[j]).0,
        forall|i: int, j: int|
            0 <= i < j < parent.len() ==> (#[trigger] parent[i]).0 != (#[trigger] parent[j]).0,
        forall|i: int, j: int|
            0 <= i < parent.len() && 0 <= j < vars.len() ==> (#[trigger] parent[i]).0 != (
            #[trigger] vars[j]).0,
    ensures
        launched(mounts, secrets, store, behavior, inherit, blacklist, parent) == Ok::<
            Seq<VarView>,
            VaultErrorView,
        >(
            if inherit {
                parent.filter(|var: VarView| !blacklist.contains(var.0)) + vars
            } else {
                vars
            },
        ),
{
    law_deduplicate_distinct(vars);
    assert(deduplicated(vars, behavior) == Ok::<Seq<VarView>, VaultErrorView>(vars));
    law_kept_vars(parent, blacklist);
    let kept = kept_vars(parent, blacklist);
    let all = kept + vars;
    lemma_kept_order(parent, blacklist);
    assert forall|i: int| 0 <= i < kept.len() implies parent.contains(#[trigger] kept[i]) by {}
    assert forall|i: int, j: int| 0 <= i < j < all.len() implies (#[trigger] all[i]).0 != (
    #[trigger] all[j]).0 by {
        if j < kept.len() {
            assert(all[i] == kept[i] && all[j] == kept[j]);
        } else if i < kept.len() {
            assert(all[i] == kept[i]);
            assert(all[j] == vars[j - kept.len()]);
            assert(parent.contains(kept[i]));
            let k = choose|k: int| 0 <= k < parent.len() && parent[k] == kept[i];
            assert(parent[k].0 != vars[j - kept.len()].0);
        } else {
            assert(all[i] == vars[i - kept.len()] && all[j] == vars[j - kept.len()]);
        }
    }
    law_deduplicate_distinct(all);
}

/// Whatever the behavior, the names of the environment stand in the order in which they
/// first occur among what is inherited and, behind that, the secrets: a secret that takes
/// the place of an inherited variable stands where that stood.
pub proof fn law_names_keep_their_places(
    mounts: Map<Seq<char>, EngineType>,
    secrets: Seq<SecretView>,
    store: Map<Seq<char>, Map<Seq<char>, JsonView>>,
    behavior: DuplicateBehavior,
    inherit: bool,
    blacklist: Seq<Seq<char>>,
    parent: Seq<VarView>,
    all: Seq<VarView>,
) -> (places: Seq<int>)
    requires
        launched(mounts, secrets, store, behavior, inherit, blacklist, parent) is Ok,
        ({
            let left = deduplicated(resolved(mounts, store, secrets)->Ok_0, behavior)->Ok_0;
            &&& inherit ==> all == parent.filter(|var: VarView| !blacklist.contains(var.0)) + left
            &&& !inherit ==> all == left
        }),
    ensures
        ({
            let env = launched(mounts, secrets, store, behavior, inherit, blacklist, parent)->Ok_0;
            &&& places.len() == env.len()
            &&& forall|i: int|
                0 <= i < env.len() ==> 0 <= #[trigger] places[i] < all.len() && all[places[i]].0
                    == env[i].0 && (forall|j: int|
                    0 <= j < places[i] ==> (#[trigger] all[j]).0 != env[i].0)
            &&& forall|i: int, j: int|
                0 <= i < j < places.len() ==> #[trigger] places[i] < #[trigger] places[j]
        }),
{
    law_kept_vars(parent, blacklist);
    let env = launched(mounts, secrets, store, behavior, inherit, blacklist, parent)->Ok_0;
    let places = lemma_leftmost(all);
    law_deduplicated_names(all);
    assert forall|i: int| 0 <= i < env.len() implies 0 <= #[trigger] places[i] < all.len()
        && all[places[i]].0 == env[i].0 && (forall|j: int|
        0 <= j < places[i] ==> (#[trigger] all[j]).0 != env[i].0) by {
        assert(first_wins(all)[i] == all[places[i]]);
        assert(first_wins(all)[i].0 == env[i].0);
        assert(leftmost(all, places[i]));
    }
    places
}

/// What is kept of variables without repeated names was among them, and has no
/// repeated names either.
proof fn lemma_kept_order(parent: Seq<VarView>, blacklist: Seq<Seq<char>>)
    ensures
        forall|i: int|
            0 <= i < kept_vars(parent, blacklist).len() ==> parent.contains(
                #[trigger] kept_vars(parent, blacklist)[i],
            ),
        distinct_names(parent) ==> distinct_names(kept_vars(parent, blacklist)),
    decreases parent.len(),
{
    if parent.len() > 0 {
        let rest = parent.drop_last();
        let kept = kept_vars(parent, blacklist);
        let kept_rest = kept_vars(rest, blacklist);
        lemma_kept_order(rest, blacklist);
        assert(parent[parent.len() - 1] == parent.last());
        assert forall|i: int| 0 <= i < kept.len() implies parent.contains(#[trigger] kept[i]) by {
            if i < kept_rest.len() {
                assert(kept[i] == kept_rest[i]);
                assert(rest.contains(kept_rest[i]));
                let k = choose|k: int| 0 <= k < rest.len() && rest[k] == kept_rest[i];
                assert(parent[k] == kept[i]);
            }
        }
        if distinct_names(parent) {
            assert forall|i: int, j: int| 0 <= i < j < rest.len() implies (#[trigger] rest[i]).0
                != (#[trigger] rest[j]).0 by {
                assert(parent[i].0 != parent[j].0);
            }
            assert forall|i: int, j: int| 0 <= i < j < kept.len() implies (#[trigger] kept[i]).0
                != (#[trigger] kept[j]).0 by {
                assert(kept[i] == kept_rest[i]);
                if j < kept_rest.len() {
                    assert(kept[j] == kept_rest[j]);
                } else {
                    assert(rest.contains(kept_rest[i]));
                    let k = choose|k: int| 0 <= k < rest.len() && rest[k] == kept_rest[i];
                    assert(parent[k].0 != parent[parent.len() - 1].0);
                }
            }
        }
    }
}

/// The arguments with which a program is run, itself the first.
pub open spec fn argument_list(cmd: Seq<char>, args: Seq<Seq<char>>) -> Seq<Seq<char>> {
    seq![cmd] + args
}

/// The arguments with which the program is run, itself the first.
pub fn exec_arguments(cmd: &str, args: &Vec<String>) -> (list: Vec<String>)
    ensures
        text_views(list@) == argument_list(cmd@, text_views(args@)),
        list@.len() == args@.len() + 1,
        list@[0]@ == cmd@,
        forall|i: int| 0 <= i < args@.len() ==> (#[trigger] list@[i + 1])@ == args@[i]@,
{
    let mut list: Vec<String> = Vec::new();
    list.push(cmd.to_owned());
    let mut i: usize = 0;
    while i < args.len()
        invariant
            i <= args@.len(),
            list@.len() == i + 1,
            list@[0]@ == cmd@,
            forall|k: int| 0 < k <= i ==> (#[trigger] list@[k])@ == args@[k - 1]@,
        decreases args@.len() - i,
    {
        list.push(args[i].clone());
        i = i + 1;
    }
    assert(text_views(list@) =~= argument_list(cmd@, text_views(args@)));
    list
}

/// A variable as it stands in the environment block of a process.
pub open spec fn env_line(var: VarView) -> Seq<char> {
    var.0 + "="@ + var.1
}

/// The environment block of the program: a `name=value` for each variable.
pub fn exec_environment(env: &Vec<(String, String)>) -> (block: Vec<String>)
    ensures
        text_views(block@) == pair_views(env@).map_values(|var: VarView| env_line(var)),
        block@.len() == env@.len(),
        forall|i: int|
            0 <= i < env@.len() ==> (#[trigger] block@[i])@ == env@[i].0@ + seq!['='] + env@[i].1@,
{
    proof {
        reveal_strlit("=");
        assert("="@ =~= seq!['=']);
    }
    let mut block: Vec<String> = Vec::new();
    let mut i: usize = 0;
    while i < env.len()
        invariant
            i == block@.len() <= env@.len(),
            forall|k: int|
                0 <= k < i ==> (#[trigger] block@[k])@ == env_line((env@[k].0@, env@[k].1@)),
        decreases env@.len() - i,
    {
        let mut line = env[i].0.clone();
        line.append("=");
        line.append(env[i].1.as_str());
        block.push(line);
        i = i + 1;
    }
    assert(text_views(block@) =~= pair_views(env@).map_values(|var: VarView| env_line(var)));
    block
}

/// The program to run: where `PATH` is searched, what was found there; else,
/// and where nothing was found, the command as it is given.
pub fn program_path<P>(use_path: bool, found: Option<P>, cmd: P) -> (program: P)
    ensures
        program == (match found {
            Some(found) => if use_path {
                found
            } else {
                cmd
            },
            None => cmd,
        }),
{
    match found {
        Some(found) => if use_path {
            found
        } else {
            cmd
        },
        None => cmd,
    }
}

} // verus!
