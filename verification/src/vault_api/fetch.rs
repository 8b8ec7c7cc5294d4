//! Mount info discovery and secret fetching.

use vstd::prelude::*;
use vstd::string::*;

use crate::address::joined_url;
use crate::http::{HttpRequest, Method, Reply, ReplyView};
use crate::json::JsonView;
use crate::mount_info::{listed_mounts, request_path, EngineType, MountInfo};
use crate::secrets_file::{secret_views, Secret, SecretView};
use crate::string_map::StringMap;
use crate::text::text_views;
use crate::vault_api::client::{api_request, VaultClient};
use crate::vault_api::data::{replied_data, VaultData};
use crate::vault_api::error::{VaultError, VaultErrorView};
use crate::vault_api::resolver::{lookup, store_view};

verus! {

/// The text of the body of a reply, which stands in for one that could not be
/// read.
pub open spec fn body_text(body: Option<Seq<char>>) -> Seq<char> {
    match body {
        Some(text) => text,
        None => "(unreadable body)"@,
    }
}

/// The body with which Vault answers an authenticated request for a path, or
/// the error that the reply stands for.
pub open spec fn answered(path: Seq<char>, reply: ReplyView) -> Result<Seq<char>, VaultErrorView> {
    match reply {
        ReplyView::Unreachable(reason) => Err(VaultErrorView::ServerUnreachable(reason)),
        ReplyView::Answer { status, body } => {
            let text = body_text(body);
            if status == 200 {
                Ok(text)
            } else if status == 400 {
                Err(VaultErrorView::BadRequest(text))
            } else if status == 403 {
                Err(VaultErrorView::Forbidden)
            } else if status == 404 {
                Err(VaultErrorView::SecretNotFound(path))
            } else if status == 500 {
                Err(VaultErrorView::ServerError(text))
            } else if status == 503 {
                Err(VaultErrorView::ServerUnavailable(text))
            } else {
                Err(VaultErrorView::Unspecified { status, body: text })
            }
        },
    }
}

/// The body with which Vault answers a request that is not authenticated, or
/// the error that the reply stands for.
pub open spec fn login_answered(reply: ReplyView) -> Result<Seq<char>, VaultErrorView> {
    match reply {
        ReplyView::Unreachable(reason) => Err(VaultErrorView::ServerUnreachable(reason)),
        ReplyView::Answer { status, body } => if status == 200 {
            Ok(body_text(body))
        } else {
            Err(VaultErrorView::ServerError(body_text(body)))
        },
    }
}

/// What was read from a body, or the error that the body stands for where it
/// could not be read.
pub open spec fn read_from<T>(
    body: Result<Seq<char>, VaultErrorView>,
    read: Result<T, Seq<char>>,
) -> Result<T, VaultErrorView> {
    match body {
        Err(error) => Err(error),
        Ok(body) => match read {
            Ok(value) => Ok(value),
            Err(msg) => Err(VaultErrorView::BadJson { body, msg }),
        },
    }
}

/// The path under which Vault lists its mounts.
pub open spec fn mounts_path() -> Seq<char> {
    "/v1/sys/mounts"@
}

/// The mounts that a reply lists.
pub open spec fn answered_mounts(reply: ReplyView) -> Result<
    Map<Seq<char>, EngineType>,
    VaultErrorView,
> {
    let body = answered(mounts_path(), reply);
    read_from(body, listed_mounts(body->Ok_0))
}

/// The secret that a reply to a request for a path holds.
pub open spec fn answered_secret(path: Seq<char>, reply: ReplyView) -> Result<
    Map<Seq<char>, JsonView>,
    VaultErrorView,
> {
    let body = answered(path, reply);
    read_from(body, replied_data(body->Ok_0))
}

/// Where there was no answer, or one with a status from 500 on, the request is
/// worth another attempt.
pub proof fn law_server_trouble_is_retryable(path: Seq<char>, reply: ReplyView)
    requires
        reply matches ReplyView::Answer { status, .. } ==> status >= 500,
    ensures
        answered(path, reply) is Err,
        answered(path, reply)->Err_0.retryable(),
        login_answered(reply) is Err,
        login_answered(reply)->Err_0.retryable(),
{
}

/// A request that Vault refuses, forbids or finds nothing for is not worth
/// another attempt.
pub proof fn law_refusal_is_final(path: Seq<char>, status: u16, body: Option<Seq<char>>)
    requires
        status == 400 || status == 403 || status == 404,
    ensures
        answered(path, ReplyView::Answer { status, body }) is Err,
        !answered(path, ReplyView::Answer { status, body })->Err_0.retryable(),
{
}

/// What a reply to an authenticated request stands for: with status 200 its body,
/// word for word, and with any other the error of that status.
pub proof fn law_answer(path: Seq<char>, status: u16, text: Seq<char>)
    ensures
        ({
            let answer = answered(path, ReplyView::Answer { status, body: Some(text) });
            &&& status == 200 ==> answer == Ok::<Seq<char>, VaultErrorView>(text)
            &&& status != 200 ==> answer is Err
            &&& status == 400 ==> answer->Err_0 == VaultErrorView::BadRequest(text)
            &&& status == 403 ==> answer->Err_0 == VaultErrorView::Forbidden
            &&& status == 404 ==> answer->Err_0 == VaultErrorView::SecretNotFound(path)
            &&& status == 500 ==> answer->Err_0 == VaultErrorView::ServerError(text)
            &&& status == 503 ==> answer->Err_0 == VaultErrorView::ServerUnavailable(text)
            &&& status != 200 && status != 400 && status != 403 && status != 404 && status != 500
                && status != 503 ==> answer->Err_0 == (VaultErrorView::Unspecified {
                status,
                body: text,
            })
        }),
{
}

/// What a reply to a login stands for: with status 200 its body, word for word,
/// and with any other an error of the server that says so.
pub proof fn law_login_answer(status: u16, text: Seq<char>)
    ensures
        status == 200 ==> login_answered(ReplyView::Answer { status, body: Some(text) }) == Ok::<
            Seq<char>,
            VaultErrorView,
        >(text),
        status != 200 ==> login_answered(ReplyView::Answer { status, body: Some(text) }) == Err::<
            Seq<char>,
            VaultErrorView,
        >(VaultErrorView::ServerError(text)),
{
}

/// A body that could not be read is told apart from none by a text that says so,
/// and no reply at all is reported with its reason.
pub proof fn law_no_body(path: Seq<char>, status: u16, reason: Seq<char>)
    ensures
        ({
            let text = Some("(unreadable body)"@);
            let unread = ReplyView::Answer { status, body: None };
            let told = ReplyView::Answer { status, body: text };
            &&& answered(path, unread) == answered(path, told)
            &&& login_answered(unread) == login_answered(told)
        }),
        answered(path, ReplyView::Unreachable(reason)) == Err::<Seq<char>, VaultErrorView>(
            VaultErrorView::ServerUnreachable(reason),
        ),
        login_answered(ReplyView::Unreachable(reason)) == Err::<Seq<char>, VaultErrorView>(
            VaultErrorView::ServerUnreachable(reason),
        ),
{
}

/// The mounts and the secret in a reply are those in its body; a body that cannot
/// be read is reported with the reason; and a reply that is an error is that error.
pub proof fn law_answered_contents(path: Seq<char>, reply: ReplyView)
    ensures
        answered(path, reply) matches Err(error) ==> answered_secret(path, reply) == Err::<
            Map<Seq<char>, JsonView>,
            VaultErrorView,
        >(error),
        answered("/v1/sys/mounts"@, reply) matches Err(error) ==> answered_mounts(reply) == Err::<
            Map<Seq<char>, EngineType>,
            VaultErrorView,
        >(error),
        answered(path, reply) matches Ok(body) ==> {
            &&& replied_data(body) matches Ok(data) ==> answered_secret(path, reply) == Ok::<
                Map<Seq<char>, JsonView>,
                VaultErrorView,
            >(data)
            &&& replied_data(body) matches Err(msg) ==> answered_secret(path, reply) == Err::<
                Map<Seq<char>, JsonView>,
                VaultErrorView,
            >(VaultErrorView::BadJson { body, msg })
        },
        answered("/v1/sys/mounts"@, reply) matches Ok(body) ==> {
            &&& listed_mounts(body) matches Ok(mounts) ==> answered_mounts(reply) == Ok::<
                Map<Seq<char>, EngineType>,
                VaultErrorView,
            >(mounts)
            &&& listed_mounts(body) matches Err(msg) ==> answered_mounts(reply) == Err::<
                Map<Seq<char>, EngineType>,
                VaultErrorView,
            >(VaultErrorView::BadJson { body, msg })
        },
{
}

/// Reads [`body_text`].
fn text_of_body(body: Option<String>) -> (text: String)
    ensures
        text@ == body_text(crate::text::opt_text(body)),
{
    match body {
        Some(text) => text,
        None => "(unreadable body)".to_owned(),
    }
}

/// The body with which Vault answers an authenticated request for a path.
pub fn read_answer(path: &str, reply: Reply) -> (body: Result<String, VaultError>)
    ensures
        match body {
            Ok(body) => answered(path@, reply@) == Ok::<Seq<char>, VaultErrorView>(body@),
            Err(error) => answered(path@, reply@) == Err::<Seq<char>, VaultErrorView>(error@),
        },
{
    let (status, body) = match reply {
        Reply::Unreachable(reason) => {
            return Err(VaultError::ServerUnreachable(reason));
        },
        Reply::Answer { status, body } => (status, body),
    };
    let text = text_of_body(body);
    let code = status.code();
    if code == 200 {
        Ok(text)
    } else if code == 400 {
        Err(VaultError::BadRequest(text))
    } else if code == 403 {
        Err(VaultError::Forbidden)
    } else if code == 404 {
        Err(VaultError::SecretNotFound(path.to_owned()))
    } else if code == 500 {
        Err(VaultError::ServerError(text))
    } else if code == 503 {
        Err(VaultError::ServerUnavailable(text))
    } else {
        Err(VaultError::Unspecified { status: code, body: text })
    }
}

/// The body with which Vault answers a request that is not authenticated.
pub fn read_login_answer(reply: Reply) -> (body: Result<String, VaultError>)
    ensures
        match body {
            Ok(body) => login_answered(reply@) == Ok::<Seq<char>, VaultErrorView>(body@),
            Err(error) => login_answered(reply@) == Err::<Seq<char>, VaultErrorView>(error@),
        },
{
    let (status, body) = match reply {
        Reply::Unreachable(reason) => {
            return Err(VaultError::ServerUnreachable(reason));
        },
        Reply::Answer { status, body } => (status, body),
    };
    let text = text_of_body(body);
    if status.code() == 200 {
        Ok(text)
    } else {
        Err(VaultError::ServerError(text))
    }
}

/// What became of the fetching of one secret.
pub enum FetchOutcome {
    /// The fetching of the secret at a path came to an end.
    Finished { path: String, data: Result<VaultData, VaultError> },
    /// The task that did the fetching broke down, for the reason given.
    Panicked(String),
}

/// The model of a [`FetchOutcome`].
pub enum FetchOutcomeView {
    Finished { path: Seq<char>, data: Result<Map<Seq<char>, JsonView>, VaultErrorView> },
    Panicked(Seq<char>),
}

/// The model of what was fetched, or of why nothing was.
pub open spec fn data_view(data: Result<VaultData, VaultError>) -> Result<
    Map<Seq<char>, JsonView>,
    VaultErrorView,
> {
    match data {
        Ok(data) => Ok(data@),
        Err(error) => Err(error@),
    }
}

impl View for FetchOutcome {
    type V = FetchOutcomeView;

    open spec fn view(&self) -> FetchOutcomeView {
        match *self {
            FetchOutcome::Finished { path, data } => FetchOutcomeView::Finished {
                path: path@,
                data: data_view(data),
            },
            FetchOutcome::Panicked(reason) => FetchOutcomeView::Panicked(reason@),
        }
    }
}

/// The models of a list of outcomes.
pub open spec fn outcome_views(outcomes: Seq<FetchOutcome>) -> Seq<FetchOutcomeView> {
    outcomes.map_values(|outcome: FetchOutcome| outcome@)
}

/// An outcome is modelled by its path and what was fetched, or why nothing was.
pub proof fn law_outcome_views(outcomes: Seq<FetchOutcome>, at: int)
    requires
        0 <= at < outcomes.len(),
    ensures
        outcome_views(outcomes).len() == outcomes.len(),
        match outcomes[at] {
            FetchOutcome::Finished { path, data: Ok(data) } => outcome_views(outcomes)[at] == (
            FetchOutcomeView::Finished { path: path@, data: Ok(data@) }),
            FetchOutcome::Finished { path, data: Err(error) } => outcome_views(outcomes)[at] == (
            FetchOutcomeView::Finished { path: path@, data: Err(error@) }),
            FetchOutcome::Panicked(reason) => outcome_views(outcomes)[at]
                == FetchOutcomeView::Panicked(reason@),
        },
{
}

/// The paths from which secrets are fetched, in order.
pub open spec fn fetch_paths(
    mounts: Map<Seq<char>, EngineType>,
    secrets: Seq<SecretView>,
) -> Seq<Seq<char>> {
    secrets.map_values(|secret: SecretView| request_path(mounts, secret))
}

/// What was fetched, by path, or the error of the first secret that was not.
pub open spec fn collected(outcomes: Seq<FetchOutcomeView>) -> Result<
    Map<Seq<char>, Map<Seq<char>, JsonView>>,
    VaultErrorView,
>
    decreases outcomes.len(),
{
    if outcomes.len() == 0 {
        Ok(Map::empty())
    } else {
        match collected(outcomes.drop_last()) {
            Err(error) => Err(error),
            Ok(store) => match outcomes.last() {
                FetchOutcomeView::Panicked(reason) => Err(
                    VaultErrorView::ServerError("concurrent task panicked: "@ + reason),
                ),
                FetchOutcomeView::Finished { path, data } => match data {
                    Err(error) => Err(error),
                    Ok(data) => Ok(store.insert(path, data)),
                },
            },
        }
    }
}

/// An error stays the error of every longer list.
proof fn lemma_collected_error(outcomes: Seq<FetchOutcomeView>, count: int)
    requires
        0 <= count <= outcomes.len(),
        collected(outcomes.take(count)) is Err,
    ensures
        collected(outcomes) == collected(outcomes.take(count)),
    decreases outcomes.len(),
{
    if count < outcomes.len() {
        assert(outcomes.drop_last().take(count) =~= outcomes.take(count));
        lemma_collected_error(outcomes.drop_last(), count);
    } else {
        assert(outcomes.take(count) =~= outcomes);
    }
}

/// Whether an outcome is a secret that was fetched from the given path.
pub open spec fn fetched_from(outcome: FetchOutcomeView, path: Seq<char>) -> bool {
    outcome matches FetchOutcomeView::Finished { path: from, data } && from == path && data is Ok
}

/// Where every outcome is a fetched secret, all of them are collected.
proof fn lemma_collected_paths(outcomes: Seq<FetchOutcomeView>, paths: Seq<Seq<char>>)
    requires
        outcomes.len() == paths.len(),
        forall|i: int| 0 <= i < paths.len() ==> fetched_from(#[trigger] outcomes[i], paths[i]),
    ensures
        collected(outcomes) is Ok,
        forall|i: int|
            0 <= i < paths.len() ==> collected(outcomes)->Ok_0.contains_key(#[trigger] paths[i]),
    decreases outcomes.len(),
{
    if outcomes.len() > 0 {
        let rest = outcomes.drop_last();
        let rest_paths = paths.drop_last();
        assert forall|i: int| 0 <= i < rest_paths.len() implies fetched_from(
            #[trigger] rest[i],
            rest_paths[i],
        ) by {
            assert(fetched_from(outcomes[i], paths[i]));
        }
        lemma_collected_paths(rest, rest_paths);
        let last = outcomes.len() - 1;
        assert(fetched_from(outcomes[last], paths[last]));
        assert forall|i: int| 0 <= i < paths.len() implies collected(
            outcomes,
        )->Ok_0.contains_key(#[trigger] paths[i]) by {
            if i < last {
                assert(rest_paths[i] == paths[i]);
            }
        }
    }
}

/// Once the fetching of every secret succeeded, no secret is reported missing.
pub proof fn law_fetched_secrets_are_found(
    mounts: Map<Seq<char>, EngineType>,
    secrets: Seq<SecretView>,
    outcomes: Seq<FetchOutcomeView>,
)
    requires
        outcomes.len() == secrets.len(),
        forall|i: int|
            0 <= i < secrets.len() ==> fetched_from(
                #[trigger] outcomes[i],
                fetch_paths(mounts, secrets)[i],
            ),
    ensures
        collected(outcomes) is Ok,
        forall|i: int|
            0 <= i < secrets.len() ==> !(lookup(
                mounts,
                collected(outcomes)->Ok_0,
                #[trigger] secrets[i],
            ) matches Err(VaultErrorView::SecretNotFound(_))),
{
    let paths = fetch_paths(mounts, secrets);
    lemma_collected_paths(outcomes, paths);
    assert forall|i: int| 0 <= i < secrets.len() implies !(lookup(
        mounts,
        collected(outcomes)->Ok_0,
        #[trigger] secrets[i],
    ) matches Err(VaultErrorView::SecretNotFound(_))) by {
        assert(paths[i] == request_path(mounts, secrets[i]));
    }
}

/// Where every secret was fetched, exactly their paths are collected, each with the
/// data that was fetched from it last.
#[verifier::rlimit(40)]
pub proof fn law_collected(
    outcomes: Seq<FetchOutcomeView>,
    paths: Seq<Seq<char>>,
    data: Seq<Map<Seq<char>, JsonView>>,
)
    requires
        outcomes.len() == paths.len() == data.len(),
        forall|i: int|
            0 <= i < outcomes.len() ==> #[trigger] outcomes[i] == (FetchOutcomeView::Finished {
                path: paths[i],
                data: Ok(data[i]),
            }),
    ensures
        collected(outcomes) is Ok,
        forall|path: Seq<char>| #[trigger]
            collected(outcomes)->Ok_0.contains_key(path) <==> paths.contains(path),
        forall|i: int|
            0 <= i < paths.len() && (forall|j: int|
                i < j < paths.len() ==> #[trigger] paths[j] != paths[i]) ==> collected(
                outcomes,
            )->Ok_0[#[trigger] paths[i]] == data[i],
    decreases outcomes.len(),
{
    if outcomes.len() > 0 {
        let rest = outcomes.drop_last();
        let rest_paths = paths.drop_last();
        let last = outcomes.len() - 1;
        assert forall|i: int| 0 <= i < rest.len() implies #[trigger] rest[i] == (
        FetchOutcomeView::Finished { path: rest_paths[i], data: Ok(data.drop_last()[i]) }) by {
            assert(outcomes[i] == rest[i]);
        }
        law_collected(rest, rest_paths, data.drop_last());
        assert(outcomes[last] == outcomes.last());
        let store = collected(outcomes)->Ok_0;
        assert forall|path: Seq<char>| #[trigger] store.contains_key(path) implies paths.contains(
            path,
        ) by {
            if path == paths[last] {
            } else {
                assert(rest_paths.contains(path));
                let i = choose|i: int| 0 <= i < rest_paths.len() && rest_paths[i] == path;
                assert(paths[i] == path);
            }
        }
        assert forall|path: Seq<char>| paths.contains(path) implies #[trigger] store.contains_key(
            path,
        ) by {
            let i = choose|i: int| 0 <= i < paths.len() && paths[i] == path;
            if i < last {
                assert(rest_paths[i] == path);
            }
        }
        assert forall|i: int|
            0 <= i < paths.len() && (forall|j: int|
                i < j < paths.len() ==> #[trigger] paths[j] != paths[i]) implies store[
        #[trigger] paths[i]] == data[i] by {
            if i < last {
                assert(paths[last] != paths[i]);
                assert forall|j: int| i < j < rest_paths.len() implies #[trigger] rest_paths[j]
                    != rest_paths[i] by {
                    assert(paths[j] != paths[i]);
                }
                assert(rest_paths[i] == paths[i]);
            }
        }
    } else {
        assert(!exists|path: Seq<char>| paths.contains(path));
    }
}

/// Whether an outcome is a secret that was fetched.
pub open spec fn was_fetched(outcome: FetchOutcomeView) -> bool {
    outcome matches FetchOutcomeView::Finished { data, .. } && data is Ok
}

/// The first secret that was not fetched says why nothing is collected.
pub proof fn law_collected_first_error(outcomes: Seq<FetchOutcomeView>, at: int)
    requires
        0 <= at < outcomes.len(),
        forall|i: int| 0 <= i < at ==> was_fetched(#[trigger] outcomes[i]),
    ensures
        outcomes[at] matches FetchOutcomeView::Finished { data: Err(error), .. } ==> collected(
            outcomes,
        ) == Err::<Map<Seq<char>, Map<Seq<char>, JsonView>>, VaultErrorView>(error),
        outcomes[at] matches FetchOutcomeView::Panicked(reason) ==> collected(outcomes) == Err::<
            Map<Seq<char>, Map<Seq<char>, JsonView>>,
            VaultErrorView,
        >(VaultErrorView::ServerError("concurrent task panicked: "@ + reason)),
{
    let head = outcomes.take(at);
    lemma_all_collected(head);
    let through = outcomes.take(at + 1);
    assert(through.drop_last() =~= head);
    assert(through.last() == outcomes[at]);
    if collected(through) is Err {
        lemma_collected_error(outcomes, at + 1);
    }
}

/// Where every secret was fetched, something is collected.
proof fn lemma_all_collected(outcomes: Seq<FetchOutcomeView>)
    requires
        forall|i: int| 0 <= i < outcomes.len() ==> was_fetched(#[trigger] outcomes[i]),
    ensures
        collected(outcomes) is Ok,
    decreases outcomes.len(),
{
    if outcomes.len() > 0 {
        let rest = outcomes.drop_last();
        assert forall|i: int| 0 <= i < rest.len() implies was_fetched(#[trigger] rest[i]) by {
            assert(outcomes[i] == rest[i]);
        }
        lemma_all_collected(rest);
        assert(outcomes[outcomes.len() - 1] == outcomes.last());
    }
}

/// How many requests may be under way at once: the given number, where zero
/// stands for no limit but the ceiling.
pub fn concurrency(max_concurrent: usize, ceiling: usize) -> (limit: usize)
    ensures
        limit == (if max_concurrent == 0 {
            ceiling
        } else {
            max_concurrent
        }),
{
    if max_concurrent == 0 {
        ceiling
    } else {
        max_concurrent
    }
}

/// The paths from which secrets are fetched, in order.
pub fn secret_paths(mount_info: &MountInfo, secrets: &Vec<Secret>) -> (paths: Vec<String>)
    ensures
        text_views(paths@) == fetch_paths(mount_info@, secret_views(secrets@)),
        paths@.len() == secrets@.len(),
        forall|i: int|
            0 <= i < secrets@.len() ==> (#[trigger] paths@[i])@ == request_path(
                mount_info@,
                secrets@[i]@,
            ),
{
    let mut paths: Vec<String> = Vec::new();
    let mut i: usize = 0;
    while i < secrets.len()
        invariant
            i == paths@.len() <= secrets@.len(),
            forall|k: int|
                0 <= k < i ==> (#[trigger] paths@[k])@ == request_path(mount_info@, secrets@[k]@),
        decreases secrets@.len() - i,
    {
        paths.push(mount_info.secret_path(&secrets[i]));
        i = i + 1;
    }
    assert(text_views(paths@) =~= fetch_paths(mount_info@, secret_views(secrets@)));
    paths
}

impl VaultClient {
    /// The request that discovers the mounts, if it can be made.
    pub fn mount_info_request(&self) -> (request: Option<HttpRequest>)
        ensures
            match request {
                Some(request) => joined_url(self@.base.text, mounts_path()) is Ok && request@
                    == api_request(self@, Method::Get, mounts_path(), true, None),
                None => joined_url(self@.base.text, mounts_path()) is Err,
            },
            request matches Some(request) ==> joined_url(self@.base.text, "/v1/sys/mounts"@)
                == Ok::<Seq<char>, Seq<char>>(request.url@) && request.method == Method::Get,
            self@.ordinary() ==> request is Some,
    {
        proof {
            reveal_strlit("/v1/sys/mounts");
            reveal_strlit("/v1/");
            assert(mounts_path().take(4) =~= "/v1/"@);
        }
        self.try_request(Method::Get, "/v1/sys/mounts", true, None)
    }

    /// The mounts in the reply to [`VaultClient::mount_info_request`].
    pub fn get_mount_info(&self, reply: Reply) -> (info: Result<MountInfo, VaultError>)
        ensures
            match info {
                Ok(info) => answered_mounts(reply@) == Ok::<
                    Map<Seq<char>, EngineType>,
                    VaultErrorView,
                >(info@),
                Err(error) => answered_mounts(reply@) == Err::<
                    Map<Seq<char>, EngineType>,
                    VaultErrorView,
                >(error@),
            },
    {
        match read_answer("/v1/sys/mounts", reply) {
            Err(error) => Err(error),
            Ok(body) => match MountInfo::from_response(body.as_str()) {
                Ok(info) => Ok(info),
                Err(msg) => Err(VaultError::BadJson { body, msg }),
            },
        }
    }

    /// The request for the secret at a path, if it can be made.
    pub fn secret_request(&self, path: &str) -> (request: Option<HttpRequest>)
        ensures
            match request {
                Some(request) => joined_url(self@.base.text, path@) is Ok && request@
                    == api_request(self@, Method::Get, path@, true, None),
                None => joined_url(self@.base.text, path@) is Err,
            },
            request matches Some(request) ==> joined_url(self@.base.text, path@) == Ok::<
                Seq<char>,
                Seq<char>,
            >(request.url@) && request.method == Method::Get,
            self@.ordinary() && crate::address::api_path(path@) && path@.len() <= 0x100_0000
                ==> request is Some,
    {
        self.try_request(Method::Get, path, true, None)
    }

    /// The secret in the reply to [`VaultClient::secret_request`] for a path.
    pub fn get_secret_by_path(&self, path: &str, reply: Reply) -> (data: Result<
        VaultData,
        VaultError,
    >)
        ensures
            data_view(data) == answered_secret(path@, reply@),
    {
        match read_answer(path, reply) {
            Err(error) => Err(error),
            Ok(body) => match VaultData::from_response(body.as_str()) {
                Ok(data) => Ok(data),
                Err(msg) => Err(VaultError::BadJson { body, msg }),
            },
        }
    }

    /// A single secret, in the reply to the request for its path.
    pub fn get_secret(&self, mount_info: &MountInfo, secret: &Secret, reply: Reply) -> (data:
        Result<VaultData, VaultError>)
        ensures
            data_view(data) == answered_secret(request_path(mount_info@, secret@), reply@),
    {
        let path = mount_info.secret_path(secret);
        self.get_secret_by_path(path.as_str(), reply)
    }

    /// Multiple secrets by path, from what became of the fetching of each, in
    /// the order of [`secret_paths`].
    pub fn get_secrets(&self, outcomes: Vec<FetchOutcome>) -> (store: Result<
        StringMap<VaultData>,
        VaultError,
    >)
        ensures
            match store {
                Ok(store) => collected(outcome_views(outcomes@)) == Ok::<
                    Map<Seq<char>, Map<Seq<char>, JsonView>>,
                    VaultErrorView,
                >(store_view(store@)),
                Err(error) => collected(outcome_views(outcomes@)) == Err::<
                    Map<Seq<char>, Map<Seq<char>, JsonView>>,
                    VaultErrorView,
                >(error@),
            },
    {
        let ghost all = outcome_views(outcomes@);
        let mut store: StringMap<VaultData> = StringMap::new();
        assert(store_view(store@) =~= Map::empty());
        for outcome in it: outcomes
            invariant
                all == outcome_views(it.seq()),
                collected(all.take(it.index())) == Ok::<
                    Map<Seq<char>, Map<Seq<char>, JsonView>>,
                    VaultErrorView,
                >(store_view(store@)),
        {
            let ghost before = store@;
            proof {
                let i = it.index();
                assert(all.take(i + 1).drop_last() =~= all.take(i));
                assert(all.take(i + 1).last() == outcome@);
                if collected(all.take(i + 1)) is Err {
                    lemma_collected_error(all, i + 1);
                }
            }
            match outcome {
                FetchOutcome::Panicked(reason) => {
                    let mut message = "concurrent task panicked: ".to_owned();
                    message.append(reason.as_str());
                    return Err(VaultError::ServerError(message));
                },
                FetchOutcome::Finished { path, data } => match data {
                    Err(error) => {
                        return Err(error);
                    },
                    Ok(data) => {
                        store.insert(path, data);
                        assert(store_view(store@) =~= store_view(before).insert(path@, data@));
                    },
                },
            }
        }
        assert(all.take(all.len() as int) =~= all);
        Ok(store)
    }
}

} // verus!
