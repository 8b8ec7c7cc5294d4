//! Resolve secrets from fetched Vault data into environment variable pairs.

use vstd::prelude::*;
use vstd::string::*;

use crate::json::{text_in, JsonView};
use crate::mount_info::{request_path, EngineType, MountInfo};
use crate::secrets_file::{secret_views, Secret, SecretView};
use crate::string_map::StringMap;
use crate::text::{pair_views, same_text};
use crate::types::DuplicateBehavior;
use crate::vault_api::data::VaultData;
use crate::vault_api::error::{VaultError, VaultErrorView};

verus! {

/// The model of an environment variable: its name and its value.
pub type VarView = (Seq<char>, Seq<char>);

/// The models of fetched secrets, by the path they were fetched from.
pub open spec fn store_view(store: Map<Seq<char>, VaultData>) -> Map<
    Seq<char>,
    Map<Seq<char>, JsonView>,
> {
    store.map_values(|data: VaultData| data@)
}

/// Fetched secrets are modelled path by path and key by key.
pub proof fn law_store_view(store: Map<Seq<char>, VaultData>, path: Seq<char>, key: Seq<char>)
    ensures
        store_view(store).contains_key(path) <==> store.contains_key(path),
        store.contains_key(path) ==> (store_view(store)[path].contains_key(key)
            <==> store[path].0@.contains_key(key)),
        store.contains_key(path) && store[path].0@.contains_key(key) ==> store_view(
            store,
        )[path][key] == store[path].0@[key]@,
{
}

/// The variable that a secret becomes, or why it cannot.
pub open spec fn lookup(
    mounts: Map<Seq<char>, EngineType>,
    store: Map<Seq<char>, Map<Seq<char>, JsonView>>,
    secret: SecretView,
) -> Result<VarView, VaultErrorView> {
    let path = request_path(mounts, secret);
    if !store.contains_key(path) {
        Err(VaultErrorView::SecretNotFound(path))
    } else if !store[path].contains_key(secret.key) {
        Err(VaultErrorView::KeyNotFound { path })
    } else {
        match text_in(store[path][secret.key]) {
            Some(value) => Ok((secret.var_name, value)),
            None => Err(VaultErrorView::WrongType { path }),
        }
    }
}

/// The variables that secrets become, in order, or the error of the first one
/// that cannot.
pub open spec fn resolved(
    mounts: Map<Seq<char>, EngineType>,
    store: Map<Seq<char>, Map<Seq<char>, JsonView>>,
    secrets: Seq<SecretView>,
) -> Result<Seq<VarView>, VaultErrorView>
    decreases secrets.len(),
{
    if secrets.len() == 0 {
        Ok(Seq::empty())
    } else {
        match resolved(mounts, store, secrets.drop_last()) {
            Err(error) => Err(error),
            Ok(vars) => match lookup(mounts, store, secrets.last()) {
                Err(error) => Err(error),
                Ok(var) => Ok(vars.push(var)),
            },
        }
    }
}

/// An error stays the error of every longer list.
proof fn lemma_resolved_error(
    mounts: Map<Seq<char>, EngineType>,
    store: Map<Seq<char>, Map<Seq<char>, JsonView>>,
    secrets: Seq<SecretView>,
    count: int,
)
    requires
        0 <= count <= secrets.len(),
        resolved(mounts, store, secrets.take(count)) is Err,
    ensures
        resolved(mounts, store, secrets) == resolved(mounts, store, secrets.take(count)),
    decreases secrets.len(),
{
    if count < secrets.len() {
        assert(secrets.drop_last().take(count) =~= secrets.take(count));
        lemma_resolved_error(mounts, store, secrets.drop_last(), count);
    } else {
        assert(secrets.take(count) =~= secrets);
    }
}

/// Resolves secrets from fetched Vault data.
///
/// Takes the secrets that were asked for and the data that was fetched, and
/// returns the environment variables with their values. Fails where a secret
/// was not fetched, or its key is missing or does not hold a string.
pub fn resolve_secrets(
    mount_info: &MountInfo,
    secrets: &Vec<Secret>,
    vault_data: &StringMap<VaultData>,
) -> (vars: Result<Vec<(String, String)>, VaultError>)
    ensures
        match vars {
            Ok(vars) => resolved(
                mount_info@,
                store_view(vault_data@),
                secret_views(secrets@),
            ) == Ok::<Seq<VarView>, VaultErrorView>(pair_views(vars@)),
            Err(error) => resolved(
                mount_info@,
                store_view(vault_data@),
                secret_views(secrets@),
            ) == Err::<Seq<VarView>, VaultErrorView>(error@),
        },
{
    let ghost mounts = mount_info@;
    let ghost store = store_view(vault_data@);
    let ghost asked = secret_views(secrets@);
    let mut vars: Vec<(String, String)> = Vec::new();
    let mut i: usize = 0;
    assert(pair_views(vars@) =~= Seq::empty());
    while i < secrets.len()
        invariant
            i <= secrets@.len(),
            mounts == mount_info@,
            store == store_view(vault_data@),
            asked == secret_views(secrets@),
            resolved(mounts, store, asked.take(i as int)) == Ok::<Seq<VarView>, VaultErrorView>(
                pair_views(vars@),
            ),
        decreases secrets@.len() - i,
    {
        let secret = &secrets[i];
        let path = mount_info.secret_path(secret);
        let ghost before = vars@;
        proof {
            assert(asked.take(i + 1).drop_last() =~= asked.take(i as int));
            assert(asked.take(i + 1).last() == secret@);
            if resolved(mounts, store, asked.take(i + 1)) is Err {
                lemma_resolved_error(mounts, store, asked, i + 1);
            }
        }
        let data = match vault_data.get(path.as_str()) {
            Some(data) => data,
            None => {
                return Err(VaultError::SecretNotFound(path));
            },
        };
        let value = match data.get(secret.key.as_str()) {
            Some(value) => value,
            None => {
                return Err(VaultError::KeyNotFound { path });
            },
        };
        match value.as_str() {
            Some(text) => {
                vars.push((secret.var_name.clone(), text.to_owned()));
                assert(pair_views(vars@) =~= pair_views(before).push((secret.var_name@, text@)));
            },
            None => {
                return Err(VaultError::WrongType { path });
            },
        }
        i = i + 1;
    }
    assert(asked.take(i as int) =~= asked);
    Ok(vars)
}

/// Whether a variable of the given name is listed.
pub open spec fn has_name(vars: Seq<VarView>, name: Seq<char>) -> bool {
    exists|i: int| 0 <= i < vars.len() && (#[trigger] vars[i]).0 == name
}

/// Whether no two variables have the same name.
pub open spec fn distinct_names(vars: Seq<VarView>) -> bool {
    forall|i: int, j: int|
        0 <= i < j < vars.len() ==> (#[trigger] vars[i]).0 != (#[trigger] vars[j]).0
}

/// Whether the variable at `at` is the first whose name an earlier one has.
pub open spec fn first_duplicate(vars: Seq<VarView>, at: int) -> bool {
    &&& 0 <= at < vars.len()
    &&& distinct_names(vars.take(at))
    &&& has_name(vars.take(at), vars[at].0)
}

/// The variables in the order in which their names first occur, each with the
/// value that its name has first.
pub open spec fn first_wins(vars: Seq<VarView>) -> Seq<VarView>
    decreases vars.len(),
{
    if vars.len() == 0 {
        Seq::empty()
    } else {
        let rest = first_wins(vars.drop_last());
        if has_name(rest, vars.last().0) {
            rest
        } else {
            rest.push(vars.last())
        }
    }
}

/// A list in which every variable of the given name has the given value.
pub open spec fn with_value(vars: Seq<VarView>, name: Seq<char>, value: Seq<char>) -> Seq<VarView> {
    vars.map_values(
        |var: VarView|
            if var.0 == name {
                (name, value)
            } else {
                var
            },
    )
}

/// The variables in the order in which their names first occur, each with the
/// value that its name has last.
pub open spec fn last_wins(vars: Seq<VarView>) -> Seq<VarView>
    decreases vars.len(),
{
    if vars.len() == 0 {
        Seq::empty()
    } else {
        let rest = last_wins(vars.drop_last());
        if has_name(rest, vars.last().0) {
            with_value(rest, vars.last().0, vars.last().1)
        } else {
            rest.push(vars.last())
        }
    }
}

/// Whether a variable of the given name is listed.
fn is_named(vars: &Vec<(String, String)>, name: &str) -> (found: bool)
    ensures
        found == has_name(pair_views(vars@), name@),
{
    let mut i: usize = 0;
    while i < vars.len()
        invariant
            i <= vars@.len(),
            forall|k: int| 0 <= k < i ==> (#[trigger] pair_views(vars@)[k]).0 != name@,
        decreases vars@.len() - i,
    {
        if same_text(vars[i].0.as_str(), name) {
            assert(pair_views(vars@)[i as int].0 == name@);
            return true;
        }
        i = i + 1;
    }
    false
}

/// Gives every variable of the given name the given value.
fn set_value(vars: &mut Vec<(String, String)>, name: &str, value: &str)
    ensures
        pair_views(final(vars)@) == with_value(pair_views(old(vars)@), name@, value@),
{
    let ghost before = pair_views(vars@);
    let mut i: usize = 0;
    while i < vars.len()
        invariant
            i <= vars@.len() == before.len(),
            forall|k: int|
                0 <= k < i ==> #[trigger] pair_views(vars@)[k] == with_value(
                    before,
                    name@,
                    value@,
                )[k],
            forall|k: int| i <= k < vars@.len() ==> #[trigger] pair_views(vars@)[k] == before[k],
        decreases vars@.len() - i,
    {
        assert(pair_views(vars@)[i as int] == before[i as int]);
        let ghost seen = vars@;
        if same_text(vars[i].0.as_str(), name) {
            vars[i] = (name.to_owned(), value.to_owned());
        }
        proof {
            assert forall|k: int| 0 <= k < vars@.len() && k != i implies #[trigger] pair_views(
                vars@,
            )[k] == pair_views(seen)[k] by {
                assert(vars@[k] == seen[k]);
            }
        }
        i = i + 1;
    }
    assert(pair_views(vars@) =~= with_value(before, name@, value@));
}

/// Brings variables into one list without repeated names, in which each keeps
/// the place of its first occurrence and has the value of its last.
pub fn merge_vars(vars: Vec<(String, String)>) -> (merged: Vec<(String, String)>)
    ensures
        pair_views(merged@) == last_wins(pair_views(vars@)),
{
    let ghost all = pair_views(vars@);
    let mut merged: Vec<(String, String)> = Vec::new();
    let mut i: usize = 0;
    assert(pair_views(merged@) =~= last_wins(all.take(0)));
    while i < vars.len()
        invariant
            i <= vars@.len(),
            all == pair_views(vars@),
            pair_views(merged@) == last_wins(all.take(i as int)),
        decreases vars@.len() - i,
    {
        let ghost before = pair_views(merged@);
        let name = &vars[i].0;
        let value = &vars[i].1;
        if is_named(&merged, name.as_str()) {
            set_value(&mut merged, name.as_str(), value.as_str());
        } else {
            merged.push((name.clone(), value.clone()));
            assert(pair_views(merged@) =~= before.push((name@, value@)));
        }
        i = i + 1;
        assert(all.take(i as int).drop_last() =~= all.take(i - 1));
    }
    assert(all.take(i as int) =~= all);
    merged
}

/// Brings variables into one list without repeated names, in which each has
/// the place and the value of its first occurrence.
pub fn keep_first(vars: Vec<(String, String)>) -> (kept: Vec<(String, String)>)
    ensures
        pair_views(kept@) == first_wins(pair_views(vars@)),
{
    let ghost all = pair_views(vars@);
    let mut kept: Vec<(String, String)> = Vec::new();
    let mut i: usize = 0;
    assert(pair_views(kept@) =~= first_wins(all.take(0)));
    while i < vars.len()
        invariant
            i <= vars@.len(),
            all == pair_views(vars@),
            pair_views(kept@) == first_wins(all.take(i as int)),
        decreases vars@.len() - i,
    {
        let ghost before = pair_views(kept@);
        let name = &vars[i].0;
        let value = &vars[i].1;
        if !is_named(&kept, name.as_str()) {
            kept.push((name.clone(), value.clone()));
            assert(pair_views(kept@) =~= before.push((name@, value@)));
        }
        i = i + 1;
        assert(all.take(i as int).drop_last() =~= all.take(i - 1));
    }
    assert(all.take(i as int) =~= all);
    kept
}

/// Finds the first variable whose name an earlier one has.
fn find_duplicate(vars: &Vec<(String, String)>) -> (found: Option<usize>)
    ensures
        match found {
            Some(at) => first_duplicate(pair_views(vars@), at as int),
            None => distinct_names(pair_views(vars@)),
        },
{
    let ghost all = pair_views(vars@);
    let mut i: usize = 0;
    while i < vars.len()
        invariant
            i <= vars@.len(),
            all == pair_views(vars@),
            distinct_names(all.take(i as int)),
        decreases vars@.len() - i,
    {
        let mut k: usize = 0;
        while k < i
            invariant
                k <= i < vars@.len(),
                all == pair_views(vars@),
                distinct_names(all.take(i as int)),
                forall|j: int|
                    0 <= j < k ==> (#[trigger] all.take(i as int)[j]).0 != all[i as int].0,
            decreases i - k,
        {
            if same_text(vars[k].0.as_str(), vars[i].0.as_str()) {
                assert(all.take(i as int)[k as int].0 == all[i as int].0);
                return Some(i);
            }
            k = k + 1;
        }
        i = i + 1;
        proof {
            let now = all.take(i as int);
            assert forall|a: int, b: int| 0 <= a < b < now.len() implies (#[trigger] now[a]).0
                != (#[trigger] now[b]).0 by {
                assert(all.take(i - 1)[a] == now[a]);
                if b < i - 1 {
                    assert(all.take(i - 1)[b] == now[b]);
                }
            }
        }
    }
    assert(all.take(i as int) =~= all);
    None
}

/// The first name that an earlier variable has already, if there is one.
pub open spec fn duplicate_name(vars: Seq<VarView>) -> Option<Seq<char>>
    decreases vars.len(),
{
    if vars.len() == 0 {
        None
    } else {
        match duplicate_name(vars.drop_last()) {
            Some(name) => Some(name),
            None => if has_name(vars.drop_last(), vars.last().0) {
                Some(vars.last().0)
            } else {
                None
            },
        }
    }
}

/// There is no duplicate name if and only if all names differ.
pub proof fn lemma_duplicate_name(vars: Seq<VarView>)
    ensures
        duplicate_name(vars) is None <==> distinct_names(vars),
    decreases vars.len(),
{
    if vars.len() > 0 {
        let rest = vars.drop_last();
        lemma_duplicate_name(rest);
        if distinct_names(vars) {
            assert forall|i: int, j: int| 0 <= i < j < rest.len() implies (#[trigger] rest[i]).0
                != (#[trigger] rest[j]).0 by {
                assert(vars[i].0 != vars[j].0);
            }
            if has_name(rest, vars.last().0) {
                let i = choose|i: int|
                    0 <= i < rest.len() && (#[trigger] rest[i]).0 == vars.last().0;
                assert(vars[i].0 != vars[vars.len() - 1].0);
            }
        } else if distinct_names(rest) && !has_name(rest, vars.last().0) {
            lemma_push_distinct(rest, vars.last());
            assert(rest.push(vars.last()) =~= vars);
        }
    }
}

/// The first duplicate has the duplicate name.
proof fn lemma_first_duplicate(vars: Seq<VarView>, at: int)
    requires
        first_duplicate(vars, at),
    ensures
        duplicate_name(vars) == Some(vars[at].0),
    decreases vars.len(),
{
    let rest = vars.drop_last();
    assert(rest.take(at) =~= vars.take(at));
    if at < rest.len() {
        lemma_first_duplicate(rest, at);
    } else {
        assert(rest =~= vars.take(at));
        lemma_duplicate_name(rest);
    }
}

/// What becomes of variables under a behavior.
pub open spec fn deduplicated(vars: Seq<VarView>, behavior: DuplicateBehavior) -> Result<
    Seq<VarView>,
    VaultErrorView,
> {
    match behavior {
        DuplicateBehavior::Error => match duplicate_name(vars) {
            Some(name) => Err(VaultErrorView::DuplicateVar(name)),
            None => Ok(vars),
        },
        DuplicateBehavior::Keep => Ok(first_wins(vars)),
        DuplicateBehavior::Overwrite => Ok(last_wins(vars)),
    }
}

/// Deduplicates environment variables according to the requested behavior.
pub fn deduplicate(vars: Vec<(String, String)>, behavior: DuplicateBehavior) -> (result: Result<
    Vec<(String, String)>,
    VaultError,
>)
    ensures
        match result {
            Ok(kept) => deduplicated(pair_views(vars@), behavior) == Ok::<
                Seq<VarView>,
                VaultErrorView,
            >(pair_views(kept@)),
            Err(error) => deduplicated(pair_views(vars@), behavior) == Err::<
                Seq<VarView>,
                VaultErrorView,
            >(error@),
        },
{
    match behavior {
        DuplicateBehavior::Error => match find_duplicate(&vars) {
            Some(at) => {
                proof {
                    lemma_first_duplicate(pair_views(vars@), at as int);
                }
                Err(VaultError::DuplicateVar(vars[at].0.clone()))
            },
            None => {
                proof {
                    lemma_duplicate_name(pair_views(vars@));
                }
                Ok(vars)
            },
        },
        DuplicateBehavior::Keep => Ok(keep_first(vars)),
        DuplicateBehavior::Overwrite => Ok(merge_vars(vars)),
    }
}

/// Resolution succeeds if and only if every secret can be looked up, and then
/// gives one variable per secret, in order.
pub proof fn law_resolved_all(
    mounts: Map<Seq<char>, EngineType>,
    store: Map<Seq<char>, Map<Seq<char>, JsonView>>,
    secrets: Seq<SecretView>,
)
    ensures
        resolved(mounts, store, secrets) is Ok <==> forall|i: int|
            0 <= i < secrets.len() ==> lookup(mounts, store, #[trigger] secrets[i]) is Ok,
        resolved(mounts, store, secrets) matches Ok(vars) ==> vars.len() == secrets.len()
            && forall|i: int|
            0 <= i < secrets.len() ==> lookup(mounts, store, #[trigger] secrets[i]) == Ok::<
                VarView,
                VaultErrorView,
            >(vars[i]),
    decreases secrets.len(),
{
    if secrets.len() > 0 {
        let rest = secrets.drop_last();
        law_resolved_all(mounts, store, rest);
        assert(forall|i: int| 0 <= i < rest.len() ==> #[trigger] rest[i] == secrets[i]);
        let last = secrets.len() - 1;
        if resolved(mounts, store, secrets) is Ok {
            assert forall|i: int| 0 <= i < secrets.len() implies lookup(
                mounts,
                store,
                #[trigger] secrets[i],
            ) is Ok by {
                if i < last {
                    assert(rest[i] == secrets[i]);
                }
            }
            let vars = resolved(mounts, store, secrets)->Ok_0;
            assert forall|i: int| 0 <= i < secrets.len() implies lookup(
                mounts,
                store,
                #[trigger] secrets[i],
            ) == Ok::<VarView, VaultErrorView>(vars[i]) by {
                if i < last {
                    assert(rest[i] == secrets[i]);
                }
            }
        } else {
            if resolved(mounts, store, rest) is Err {
                let i = choose|i: int|
                    0 <= i < rest.len() && lookup(mounts, store, #[trigger] rest[i]) is Err;
                assert(lookup(mounts, store, secrets[i]) is Err);
            } else {
                assert(lookup(mounts, store, secrets[last]) is Err);
            }
        }
    }
}

/// Whether fetched data holds a text under a path and a key.
pub open spec fn holds_text(
    store: Map<Seq<char>, Map<Seq<char>, JsonView>>,
    path: Seq<char>,
    key: Seq<char>,
    text: Seq<char>,
) -> bool {
    &&& store.contains_key(path)
    &&& store[path].contains_key(key)
    &&& store[path][key] == JsonView::Text(text)
}

/// A secret becomes a variable if and only if a text was fetched for it, and
/// then the variable has the name that the secret asks for and that very text.
pub proof fn law_found_text(
    mounts: Map<Seq<char>, EngineType>,
    store: Map<Seq<char>, Map<Seq<char>, JsonView>>,
    secret: SecretView,
    text: Seq<char>,
)
    ensures
        ({
            let path = request_path(mounts, secret);
            lookup(mounts, store, secret) == Ok::<VarView, VaultErrorView>(
                (secret.var_name, text),
            ) <==> store.contains_key(path) && store[path].contains_key(secret.key)
                && store[path][secret.key] == JsonView::Text(text)
        }),
        lookup(mounts, store, secret) matches Ok(var) ==> var.0 == secret.var_name,
{
}

/// Where fetched data holds a text for every secret, each secret becomes, in its
/// place, the variable with the name that it asks for and exactly that text as
/// its value.
pub proof fn law_resolved_values(
    mounts: Map<Seq<char>, EngineType>,
    store: Map<Seq<char>, Map<Seq<char>, JsonView>>,
    secrets: Seq<SecretView>,
    texts: Seq<Seq<char>>,
)
    requires
        texts.len() == secrets.len(),
        forall|i: int|
            0 <= i < secrets.len() ==> {
                let path = request_path(mounts, #[trigger] secrets[i]);
                &&& store.contains_key(path)
                &&& store[path].contains_key(secrets[i].key)
                &&& store[path][secrets[i].key] == JsonView::Text(texts[i])
            },
    ensures
        resolved(mounts, store, secrets) is Ok,
        resolved(mounts, store, secrets)->Ok_0.len() == secrets.len(),
        forall|i: int|
            0 <= i < secrets.len() ==> (#[trigger] resolved(mounts, store, secrets)->Ok_0[i]) == (
                secrets[i].var_name,
                texts[i],
            ),
{
    law_resolved_all(mounts, store, secrets);
    assert forall|i: int| 0 <= i < secrets.len() implies lookup(
        mounts,
        store,
        #[trigger] secrets[i],
    ) == Ok::<VarView, VaultErrorView>((secrets[i].var_name, texts[i])) by {
        law_found_text(mounts, store, secrets[i], texts[i]);
    }
    assert forall|i: int| 0 <= i < secrets.len() implies (#[trigger] resolved(
        mounts,
        store,
        secrets,
    )->Ok_0[i]) == (secrets[i].var_name, texts[i]) by {
        assert(lookup(mounts, store, secrets[i]) is Ok);
    }
}

/// The first secret for which no text was fetched says why nothing is resolved:
/// nothing was fetched from its path, or not its key, or no text; and from which
/// path.
pub proof fn law_resolution_failure(
    mounts: Map<Seq<char>, EngineType>,
    store: Map<Seq<char>, Map<Seq<char>, JsonView>>,
    secrets: Seq<SecretView>,
    at: int,
)
    requires
        0 <= at < secrets.len(),
        forall|i: int|
            0 <= i < at ==> {
                let path = request_path(mounts, #[trigger] secrets[i]);
                &&& store.contains_key(path)
                &&& store[path].contains_key(secrets[i].key)
                &&& store[path][secrets[i].key] is Text
            },
    ensures
        ({
            let path = request_path(mounts, secrets[at]);
            let key = secrets[at].key;
            let outcome = resolved(mounts, store, secrets);
            &&& !store.contains_key(path) ==> outcome == Err::<Seq<VarView>, VaultErrorView>(
                VaultErrorView::SecretNotFound(path),
            )
            &&& store.contains_key(path) && !store[path].contains_key(key) ==> outcome == Err::<
                Seq<VarView>,
                VaultErrorView,
            >(VaultErrorView::KeyNotFound { path })
            &&& store.contains_key(path) && store[path].contains_key(key) && !(
            store[path][key] is Text) ==> outcome == Err::<Seq<VarView>, VaultErrorView>(
                VaultErrorView::WrongType { path },
            )
        }),
{
    assert forall|i: int| 0 <= i < at implies lookup(
        mounts,
        store,
        #[trigger] secrets[i],
    ) is Ok by {}
    if lookup(mounts, store, secrets[at]) is Err {
        law_resolved_first_error(mounts, store, secrets, at);
    }
}

/// The error of a failed resolution is that of the first secret that cannot be
/// looked up.
pub proof fn law_resolved_first_error(
    mounts: Map<Seq<char>, EngineType>,
    store: Map<Seq<char>, Map<Seq<char>, JsonView>>,
    secrets: Seq<SecretView>,
    at: int,
)
    requires
        0 <= at < secrets.len(),
        lookup(mounts, store, secrets[at]) is Err,
        forall|i: int| 0 <= i < at ==> lookup(mounts, store, #[trigger] secrets[i]) is Ok,
    ensures
        resolved(mounts, store, secrets) == Err::<Seq<VarView>, VaultErrorView>(
            lookup(mounts, store, secrets[at])->Err_0,
        ),
{
    let head = secrets.take(at);
    assert(forall|i: int| 0 <= i < head.len() ==> #[trigger] head[i] == secrets[i]);
    law_resolved_all(mounts, store, head);
    let through = secrets.take(at + 1);
    assert(through.drop_last() =~= head);
    assert(through.last() == secrets[at]);
    lemma_resolved_error(mounts, store, secrets, at + 1);
}

/// The map that a list of variables describes when a later one replaces an
/// earlier one with the same name.
pub open spec fn vars_map(vars: Seq<VarView>) -> Map<Seq<char>, Seq<char>>
    decreases vars.len(),
{
    if vars.len() == 0 {
        Map::empty()
    } else {
        vars_map(vars.drop_last()).insert(vars.last().0, vars.last().1)
    }
}

/// The map that a list of variables describes when an earlier one prevails
/// over a later one with the same name.
pub open spec fn first_map(vars: Seq<VarView>) -> Map<Seq<char>, Seq<char>>
    decreases vars.len(),
{
    if vars.len() == 0 {
        Map::empty()
    } else if first_map(vars.drop_last()).contains_key(vars.last().0) {
        first_map(vars.drop_last())
    } else {
        first_map(vars.drop_last()).insert(vars.last().0, vars.last().1)
    }
}

/// The names of the described map are the names of the list.
pub proof fn lemma_vars_map_names(vars: Seq<VarView>, name: Seq<char>)
    ensures
        vars_map(vars).contains_key(name) <==> has_name(vars, name),
    decreases vars.len(),
{
    if vars.len() > 0 {
        let rest = vars.drop_last();
        lemma_vars_map_names(rest, name);
        if has_name(rest, name) {
            let i = choose|i: int| 0 <= i < rest.len() && (#[trigger] rest[i]).0 == name;
            assert(vars[i].0 == name);
        }
        if has_name(vars, name) {
            let i = choose|i: int| 0 <= i < vars.len() && (#[trigger] vars[i]).0 == name;
            if i < rest.len() {
                assert(rest[i].0 == name);
            }
        }
        assert(vars[vars.len() - 1].0 == vars.last().0);
    }
}

/// Giving listed variables of a name a value changes the described map at that
/// name alone.
proof fn lemma_with_value_map(vars: Seq<VarView>, name: Seq<char>, value: Seq<char>)
    requires
        has_name(vars, name),
    ensures
        vars_map(with_value(vars, name, value)) == vars_map(vars).insert(name, value),
    decreases vars.len(),
{
    let rest = vars.drop_last();
    let changed = with_value(vars, name, value);
    assert(changed.drop_last() =~= with_value(rest, name, value));
    if has_name(rest, name) {
        lemma_with_value_map(rest, name, value);
    } else {
        assert(with_value(rest, name, value) =~= rest) by {
            assert forall|i: int| 0 <= i < rest.len() implies with_value(rest, name, value)[i]
                == rest[i] by {
                assert(rest[i].0 != name);
            }
        }
        let i = choose|i: int| 0 <= i < vars.len() && (#[trigger] vars[i]).0 == name;
        if i < rest.len() {
            assert(rest[i].0 == name);
        }
        assert(vars.last().0 == name);
    }
    assert(vars_map(changed) =~= vars_map(vars).insert(name, value));
}

/// Merged variables have the values that their names have last.
pub proof fn law_last_wins_values(vars: Seq<VarView>)
    ensures
        vars_map(last_wins(vars)) == vars_map(vars),
    decreases vars.len(),
{
    if vars.len() > 0 {
        let rest = last_wins(vars.drop_last());
        law_last_wins_values(vars.drop_last());
        if has_name(rest, vars.last().0) {
            lemma_with_value_map(rest, vars.last().0, vars.last().1);
        } else {
            assert(rest.push(vars.last()).drop_last() =~= rest);
        }
    }
}

/// Kept variables have the values that their names have first.
pub proof fn law_first_wins_values(vars: Seq<VarView>)
    ensures
        vars_map(first_wins(vars)) == first_map(vars),
    decreases vars.len(),
{
    if vars.len() > 0 {
        let rest = first_wins(vars.drop_last());
        law_first_wins_values(vars.drop_last());
        lemma_vars_map_names(rest, vars.last().0);
        if !has_name(rest, vars.last().0) {
            assert(rest.push(vars.last()).drop_last() =~= rest);
        }
    }
}

/// A name pushed behind distinct names, none of which it is, is distinct too.
proof fn lemma_push_distinct(vars: Seq<VarView>, var: VarView)
    requires
        distinct_names(vars),
        !has_name(vars, var.0),
    ensures
        distinct_names(vars.push(var)),
{
    let more = vars.push(var);
    assert forall|i: int, j: int| 0 <= i < j < more.len() implies (#[trigger] more[i]).0 != (
    #[trigger] more[j]).0 by {
        assert(vars[i] == more[i]);
        if j < vars.len() {
            assert(vars[j] == more[j]);
        }
    }
}

/// Giving variables values keeps their names.
proof fn lemma_with_value_names(vars: Seq<VarView>, name: Seq<char>, value: Seq<char>)
    ensures
        with_value(vars, name, value).len() == vars.len(),
        forall|i: int|
            0 <= i < vars.len() ==> (#[trigger] with_value(vars, name, value)[i]).0 == vars[i].0,
        distinct_names(vars) ==> distinct_names(with_value(vars, name, value)),
{
    let changed = with_value(vars, name, value);
    if distinct_names(vars) {
        assert forall|i: int, j: int| 0 <= i < j < changed.len() implies (#[trigger] changed[i]).0
            != (#[trigger] changed[j]).0 by {
            assert(vars[i].0 != vars[j].0);
        }
    }
}

/// Neither way of deduplicating leaves a name twice, and both list the same
/// names in the same order.
pub proof fn law_deduplicated_names(vars: Seq<VarView>)
    ensures
        distinct_names(first_wins(vars)),
        distinct_names(last_wins(vars)),
        first_wins(vars).len() == last_wins(vars).len(),
        forall|i: int|
            0 <= i < first_wins(vars).len() ==> (#[trigger] first_wins(vars)[i]).0 == last_wins(
                vars,
            )[i].0,
    decreases vars.len(),
{
    if vars.len() > 0 {
        let last = vars.last();
        let first_rest = first_wins(vars.drop_last());
        let last_rest = last_wins(vars.drop_last());
        law_deduplicated_names(vars.drop_last());
        lemma_with_value_names(last_rest, last.0, last.1);
        assert(has_name(first_rest, last.0) == has_name(last_rest, last.0)) by {
            if has_name(first_rest, last.0) {
                let i = choose|i: int|
                    0 <= i < first_rest.len() && (#[trigger] first_rest[i]).0 == last.0;
                assert(last_rest[i].0 == last.0);
            }
            if has_name(last_rest, last.0) {
                let i = choose|i: int|
                    0 <= i < last_rest.len() && (#[trigger] last_rest[i]).0 == last.0;
                assert(first_rest[i].0 == last.0);
            }
        }
        if !has_name(first_rest, last.0) {
            lemma_push_distinct(first_rest, last);
            lemma_push_distinct(last_rest, last);
        }
    }
}

/// Whatever the behavior, no name is left twice where variables are left at
/// all; and only the strict behavior can leave none.
pub proof fn law_deduplicated_distinct(vars: Seq<VarView>, behavior: DuplicateBehavior)
    ensures
        deduplicated(vars, behavior) matches Ok(kept) ==> distinct_names(kept),
        deduplicated(vars, behavior) is Err <==> behavior == DuplicateBehavior::Error
            && !distinct_names(vars),
{
    lemma_duplicate_name(vars);
    law_deduplicated_names(vars);
}

/// Under the strict behavior the first variable whose name an earlier one has is
/// reported by that name.
pub proof fn law_first_duplicate_is_reported(vars: Seq<VarView>, first: int, at: int)
    requires
        0 <= first < at < vars.len(),
        vars[first].0 == vars[at].0,
        forall|i: int, j: int|
            0 <= i < j < at ==> (#[trigger] vars[i]).0 != (#[trigger] vars[j]).0,
    ensures
        deduplicated(vars, DuplicateBehavior::Error) == Err::<Seq<VarView>, VaultErrorView>(
            VaultErrorView::DuplicateVar(vars[at].0),
        ),
{
    let head = vars.take(at);
    assert forall|i: int, j: int| 0 <= i < j < head.len() implies (#[trigger] head[i]).0 != (
    #[trigger] head[j]).0 by {
        assert(vars[i].0 != vars[j].0);
    }
    assert(head[first].0 == vars[at].0);
    lemma_first_duplicate(vars, at);
}

/// Where variables are kept, the first of each name is left as it is, and
/// nothing else is left; what is left is in the order that it had.
pub proof fn law_keeping_keeps_the_first(vars: Seq<VarView>)
    ensures
        deduplicated(vars, DuplicateBehavior::Keep) is Ok,
        forall|i: int|
            0 <= i < vars.len() && (forall|j: int|
                0 <= j < i ==> (#[trigger] vars[j]).0 != vars[i].0) ==> deduplicated(
                vars,
                DuplicateBehavior::Keep,
            )->Ok_0.contains(#[trigger] vars[i]),
        exists|places: Seq<int>| #[trigger]
            leftmost_places(vars, deduplicated(vars, DuplicateBehavior::Keep)->Ok_0, places),
{
    assert forall|i: int|
        0 <= i < vars.len() && (forall|j: int|
            0 <= j < i ==> (#[trigger] vars[j]).0 != vars[i].0) implies first_wins(vars).contains(
        #[trigger] vars[i],
    ) by {
        lemma_first_listed(vars, i);
    }
    let places = lemma_leftmost(vars);
    assert(leftmost_places(vars, deduplicated(vars, DuplicateBehavior::Keep)->Ok_0, places));
}

/// The first variable of a name is left where variables are kept.
proof fn lemma_first_listed(vars: Seq<VarView>, at: int)
    requires
        0 <= at < vars.len(),
        forall|i: int| 0 <= i < at ==> (#[trigger] vars[i]).0 != vars[at].0,
    ensures
        first_wins(vars).contains(vars[at]),
    decreases vars.len(),
{
    let rest = vars.drop_last();
    let before = first_wins(rest);
    let left = first_wins(vars);
    if at < rest.len() {
        assert forall|i: int| 0 <= i < at implies (#[trigger] rest[i]).0 != rest[at].0 by {
            assert(vars[i].0 != vars[at].0);
        }
        lemma_first_listed(rest, at);
        let k = choose|k: int| 0 <= k < before.len() && before[k] == rest[at];
        assert(left[k] == vars[at]);
    } else {
        lemma_first_wins_names(rest, vars.last().0);
        if has_name(rest, vars.last().0) {
            let k = choose|k: int| 0 <= k < rest.len() && (#[trigger] rest[k]).0 == vars.last().0;
            assert(vars[k].0 != vars[at].0);
        }
        assert(left[left.len() - 1] == vars[at]);
    }
}

/// Where the variables that are left stood.
#[verifier::rlimit(40)]
pub proof fn lemma_leftmost(vars: Seq<VarView>) -> (places: Seq<int>)
    ensures
        leftmost_places(vars, first_wins(vars), places),
    decreases vars.len(),
{
    if vars.len() == 0 {
        Seq::empty()
    } else {
        let rest = vars.drop_last();
        let places = lemma_leftmost(rest);
        let kept_rest = first_wins(rest);
        let kept = first_wins(vars);
        let last = vars.len() - 1;
        lemma_first_wins_names(rest, vars.last().0);
        assert forall|k: int| 0 <= k < kept_rest.len() implies {
            &&& 0 <= #[trigger] places[k] < vars.len()
            &&& kept[k] == vars[places[k]]
            &&& leftmost(vars, places[k])
        } by {
            assert(leftmost(rest, places[k]));
            assert(kept[k] == kept_rest[k]);
            assert forall|j: int| 0 <= j < places[k] implies (#[trigger] vars[j]).0
                != vars[places[k]].0 by {
                assert(rest[j].0 != rest[places[k]].0);
            }
        }
        if has_name(kept_rest, vars.last().0) {
            places
        } else {
            let more = places.push(last);
            assert forall|j: int| 0 <= j < last implies (#[trigger] vars[j]).0 != vars[last].0 by {
                assert(rest[j] == vars[j]);
            }
            assert forall|k: int| 0 <= k < kept.len() implies {
                &&& 0 <= #[trigger] more[k] < vars.len()
                &&& kept[k] == vars[more[k]]
                &&& leftmost(vars, more[k])
            } by {
                if k < kept_rest.len() {
                    assert(more[k] == places[k]);
                }
            }
            assert forall|j: int, k: int| 0 <= j < k < more.len() implies #[trigger] more[j]
                < #[trigger] more[k] by {
                assert(more[j] == places[j]);
                if k < places.len() {
                    assert(more[k] == places[k]);
                }
            }
            more
        }
    }
}

/// Whether the variable at `at` is the first of its name.
pub open spec fn leftmost(vars: Seq<VarView>, at: int) -> bool {
    forall|j: int| 0 <= j < at ==> (#[trigger] vars[j]).0 != vars[at].0
}

/// Whether the variables that are left stand, in ascending order, at the given
/// places, each being the first of its name.
pub open spec fn leftmost_places(
    vars: Seq<VarView>,
    kept: Seq<VarView>,
    places: Seq<int>,
) -> bool {
    &&& places.len() == kept.len()
    &&& forall|k: int|
        0 <= k < kept.len() ==> 0 <= #[trigger] places[k] < vars.len() && kept[k] == vars[places[k]]
            && leftmost(vars, places[k])
    &&& forall|j: int, k: int|
        0 <= j < k < places.len() ==> #[trigger] places[j] < #[trigger] places[k]
}

/// The names that are left are the names that there were.
proof fn lemma_first_wins_names(vars: Seq<VarView>, name: Seq<char>)
    ensures
        has_name(first_wins(vars), name) <==> has_name(vars, name),
{
    law_first_wins_values(vars);
    lemma_vars_map_names(first_wins(vars), name);
    lemma_vars_map_names(vars, name);
    lemma_first_map_domain(vars);
}

/// Whichever value of a name counts, the names are the same.
proof fn lemma_first_map_domain(vars: Seq<VarView>)
    ensures
        first_map(vars).dom() == vars_map(vars).dom(),
    decreases vars.len(),
{
    if vars.len() > 0 {
        lemma_first_map_domain(vars.drop_last());
    }
    assert(first_map(vars).dom() =~= vars_map(vars).dom());
}

/// Where variables are overwritten, the same names are left in the same order as
/// where they are kept, each with the value that it has last.
pub proof fn law_overwriting_keeps_the_last(vars: Seq<VarView>, at: int)
    requires
        0 <= at < vars.len(),
        forall|i: int| at < i < vars.len() ==> (#[trigger] vars[i]).0 != vars[at].0,
    ensures
        ({
            let left = deduplicated(vars, DuplicateBehavior::Overwrite)->Ok_0;
            let kept = deduplicated(vars, DuplicateBehavior::Keep)->Ok_0;
            &&& deduplicated(vars, DuplicateBehavior::Overwrite) is Ok
            &&& left.contains(vars[at])
            &&& left.len() == kept.len()
            &&& forall|i: int| 0 <= i < left.len() ==> (#[trigger] left[i]).0 == kept[i].0
        }),
{
    law_deduplicated_names(vars);
    lemma_last_listed(vars, at);
    let left = last_wins(vars);
    let kept = first_wins(vars);
    assert forall|i: int| 0 <= i < left.len() implies (#[trigger] left[i]).0 == kept[i].0 by {
        assert(kept[i].0 == left[i].0);
    }
}

/// The last variable of a name is left where variables are overwritten.
proof fn lemma_last_listed(vars: Seq<VarView>, at: int)
    requires
        0 <= at < vars.len(),
        forall|i: int| at < i < vars.len() ==> (#[trigger] vars[i]).0 != vars[at].0,
    ensures
        last_wins(vars).contains(vars[at]),
    decreases vars.len(),
{
    let rest = vars.drop_last();
    let last = vars.last();
    let before = last_wins(rest);
    let left = last_wins(vars);
    if at < rest.len() {
        assert forall|i: int| at < i < rest.len() implies (#[trigger] rest[i]).0 != rest[at].0 by {
            assert(vars[i].0 != vars[at].0);
        }
        lemma_last_listed(rest, at);
        assert(vars[vars.len() - 1].0 != vars[at].0);
        let k = choose|k: int| 0 <= k < before.len() && before[k] == rest[at];
        assert(left[k] == vars[at]);
    } else if has_name(before, last.0) {
        let k = choose|k: int| 0 <= k < before.len() && (#[trigger] before[k]).0 == last.0;
        assert(left[k] == last);
    } else {
        assert(left[left.len() - 1] == last);
    }
}

/// What is left where variables are overwritten was among them.
pub proof fn lemma_last_wins_from(vars: Seq<VarView>, var: VarView)
    requires
        last_wins(vars).contains(var),
    ensures
        vars.contains(var),
    decreases vars.len(),
{
    if vars.len() > 0 {
        let rest = vars.drop_last();
        let left = last_wins(vars);
        let before = last_wins(rest);
        assert(vars[vars.len() - 1] == vars.last());
        let i = choose|i: int| 0 <= i < left.len() && left[i] == var;
        if var != vars.last() {
            assert(before[i] == var);
            assert(before.contains(var));
            lemma_last_wins_from(rest, var);
            let k = choose|k: int| 0 <= k < rest.len() && rest[k] == var;
            assert(vars[k] == var);
        }
    }
}

/// Where variables are overwritten, each that is left is one of them.
pub proof fn law_overwriting_adds_nothing(vars: Seq<VarView>, at: int)
    requires
        0 <= at < deduplicated(vars, DuplicateBehavior::Overwrite)->Ok_0.len(),
    ensures
        vars.contains(deduplicated(vars, DuplicateBehavior::Overwrite)->Ok_0[at]),
{
    assert(last_wins(vars).contains(last_wins(vars)[at]));
    lemma_last_wins_from(vars, last_wins(vars)[at]);
}

/// Deduplicating twice is deduplicating once.
pub proof fn law_deduplicate_idempotent(vars: Seq<VarView>, behavior: DuplicateBehavior)
    ensures
        deduplicated(vars, behavior) matches Ok(kept) ==> deduplicated(kept, behavior) == Ok::<
            Seq<VarView>,
            VaultErrorView,
        >(kept),
{
    law_deduplicated_distinct(vars, behavior);
    if deduplicated(vars, behavior) is Ok {
        let kept = deduplicated(vars, behavior)->Ok_0;
        law_deduplicate_distinct(kept);
        lemma_duplicate_name(kept);
    }
}

/// Variables without repeated names are left as they are by every behavior.
pub proof fn law_deduplicate_distinct(vars: Seq<VarView>)
    requires
        distinct_names(vars),
    ensures
        first_wins(vars) == vars,
        last_wins(vars) == vars,
        forall|behavior: DuplicateBehavior| #[trigger]
            deduplicated(vars, behavior) == Ok::<Seq<VarView>, VaultErrorView>(vars),
    decreases vars.len(),
{
    lemma_duplicate_name(vars);
    if vars.len() > 0 {
        let rest = vars.drop_last();
        assert forall|i: int, j: int| 0 <= i < j < rest.len() implies (#[trigger] rest[i]).0 != (
        #[trigger] rest[j]).0 by {
            assert(vars[i].0 != vars[j].0);
        }
        law_deduplicate_distinct(rest);
        assert(!has_name(rest, vars.last().0)) by {
            if has_name(rest, vars.last().0) {
                let i = choose|i: int|
                    0 <= i < rest.len() && (#[trigger] rest[i]).0 == vars.last().0;
                assert(vars[i].0 != vars[vars.len() - 1].0);
            }
        }
        assert(rest.push(vars.last()) =~= vars);
    }
}

} // verus!
