//! Authentication: what to gather, what to log in with, and the client that
//! comes of it.

use vstd::prelude::*;
use vstd::string::*;
use vstd::utf8::{decode_utf8, valid_utf8};

use crate::address::api_path;
use crate::auth::{AuthMethod, AuthMethodView};
use crate::cloud_metadata::{AzureVmMetadata, Ec2SignatureType};
use crate::string_map::{text_map, StringMap};
use crate::text::{chars_of, opt_str, string_of};
use crate::vault_api::client::{ClientView, VaultClient};
use crate::vault_api::data::ClientToken;
use crate::vault_api::error::{VaultError, VaultErrorView};

verus! {

/// What happened since the last step of an authentication.
pub enum AuthEvent {
    /// Nothing: the authentication starts.
    Start,
    /// The file with the service account JWT was read, or could not be for the
    /// reason given.
    KubernetesJwt(Result<Vec<u8>, String>),
    /// The token of the Azure Managed Service Identity was fetched, or could
    /// not be for the reason given.
    AzureJwt(Result<String, String>),
    /// The metadata of the Azure virtual machine was fetched after the token,
    /// or could not be for the reason given.
    AzureVm { jwt: String, metadata: Result<AzureVmMetadata, String> },
    /// The identity JWT of GCE was fetched, or could not be for the reason
    /// given.
    GceJwt(Result<String, String>),
    /// The login fields of EC2 were fetched, or could not be for the reason
    /// given.
    Ec2Metadata(Result<StringMap<String>, String>),
    /// The login came to an end.
    LoggedIn(Result<String, VaultError>),
}

/// The next step of an authentication.
pub enum AuthStep {
    /// The authentication is done with this client.
    Done(VaultClient),
    /// The authentication failed.
    Failed(VaultError),
    /// Read the file with the Kubernetes service account JWT.
    ReadKubernetesJwt,
    /// Fetch a token of the Azure Managed Service Identity for a resource.
    FetchAzureJwt { resource: String },
    /// Fetch the metadata of the Azure virtual machine, and hand it back with
    /// the token.
    FetchAzureVm { jwt: String },
    /// Fetch an identity JWT of GCE for an audience.
    FetchGceJwt { audience: String },
    /// Fetch the login fields of EC2.
    FetchEc2Metadata { signature_type: Ec2SignatureType },
    /// Log in by a request that is not authenticated.
    Login { path: String, body: StringMap<String> },
}

/// The model of an [`AuthStep`].
pub enum AuthStepView {
    Done(ClientView),
    Failed(VaultErrorView),
    ReadKubernetesJwt,
    FetchAzureJwt { resource: Seq<char> },
    FetchAzureVm { jwt: Seq<char> },
    FetchGceJwt { audience: Seq<char> },
    FetchEc2Metadata { signature_type: Ec2SignatureType },
    Login { path: Seq<char>, body: Map<Seq<char>, Seq<char>> },
}

impl View for AuthStep {
    type V = AuthStepView;

    open spec fn view(&self) -> AuthStepView {
        match *self {
            AuthStep::Done(client) => AuthStepView::Done(client@),
            AuthStep::Failed(error) => AuthStepView::Failed(error@),
            AuthStep::ReadKubernetesJwt => AuthStepView::ReadKubernetesJwt,
            AuthStep::FetchAzureJwt { resource } => AuthStepView::FetchAzureJwt {
                resource: resource@,
            },
            AuthStep::FetchAzureVm { jwt } => AuthStepView::FetchAzureVm { jwt: jwt@ },
            AuthStep::FetchGceJwt { audience } => AuthStepView::FetchGceJwt {
                audience: audience@,
            },
            AuthStep::FetchEc2Metadata { signature_type } => AuthStepView::FetchEc2Metadata {
                signature_type,
            },
            AuthStep::Login { path, body } => AuthStepView::Login {
                path: path@,
                body: text_map(body@),
            },
        }
    }
}

/// A step is modelled by what it says.
pub proof fn law_step_view(step: AuthStep, name: Seq<char>)
    ensures
        match step {
            AuthStep::Done(client) => step@ == AuthStepView::Done(client@),
            AuthStep::Failed(error) => step@ == AuthStepView::Failed(error@),
            AuthStep::ReadKubernetesJwt => step@ == AuthStepView::ReadKubernetesJwt,
            AuthStep::FetchAzureJwt { resource } => step@ == (AuthStepView::FetchAzureJwt {
                resource: resource@,
            }),
            AuthStep::FetchAzureVm { jwt } => step@ == (AuthStepView::FetchAzureVm { jwt: jwt@ }),
            AuthStep::FetchGceJwt { audience } => step@ == (AuthStepView::FetchGceJwt {
                audience: audience@,
            }),
            AuthStep::FetchEc2Metadata { signature_type } => step@ == (
            AuthStepView::FetchEc2Metadata { signature_type }),
            AuthStep::Login { path, body } => {
                &&& step@ is Login
                &&& step@->path == path@
                &&& step@->body.contains_key(name) <==> body@.contains_key(name)
                &&& body@.contains_key(name) ==> step@->body[name] == body@[name]@
            },
        },
{
}

/// The backend that a method logs in to where none is given.
pub open spec fn usual_backend(method: AuthMethodView) -> Seq<char> {
    match method {
        AuthMethodView::GitHub(_) => "github"@,
        AuthMethodView::Kubernetes { .. } => "kubernetes"@,
        AuthMethodView::AppRole { .. } => "approle"@,
        AuthMethodView::Ldap { .. } => "ldap"@,
        AuthMethodView::Okta { .. } => "okta"@,
        AuthMethodView::Azure { .. } => "azure"@,
        AuthMethodView::Gcp { .. } => "gcp"@,
        AuthMethodView::AwsEc2 { .. } => "aws"@,
        AuthMethodView::Jwt { .. } => "jwt"@,
        _ => ""@,
    }
}

/// The path under which a method logs in.
pub open spec fn login_path(method: AuthMethodView, backend: Option<Seq<char>>) -> Seq<char> {
    let backend = match backend {
        Some(backend) => backend,
        None => usual_backend(method),
    };
    let path = "/v1/auth/"@ + backend + "/login"@;
    match method {
        AuthMethodView::Ldap { username, .. } => path + "/"@ + username,
        AuthMethodView::Okta { username, .. } => path + "/"@ + username,
        _ => path,
    }
}

/// An object of one member.
pub open spec fn one_member(name: Seq<char>, value: Seq<char>) -> Map<Seq<char>, Seq<char>> {
    Map::empty().insert(name, value)
}

/// A sequence without the slashes at its end.
pub open spec fn unslashed(s: Seq<char>) -> Seq<char>
    decreases s.len(),
{
    if s.len() > 0 && s.last() == '/' {
        unslashed(s.drop_last())
    } else {
        s
    }
}

/// The audience that a token of GCE is asked for.
pub open spec fn gce_audience(client: ClientView, role: Seq<char>) -> Seq<char> {
    unslashed(client.base.text) + "/vault/"@ + role
}

/// What an authentication starts with.
pub open spec fn first_step(
    client: ClientView,
    method: AuthMethodView,
    backend: Option<Seq<char>>,
) -> AuthStepView {
    let path = login_path(method, backend);
    match method {
        AuthMethodView::VaultToken { token } => AuthStepView::Done(client.with_token(token)),
        AuthMethodView::Unauthenticated => AuthStepView::Done(client),
        AuthMethodView::GitHub(token) => AuthStepView::Login {
            path,
            body: one_member("token"@, token),
        },
        AuthMethodView::Kubernetes { .. } => AuthStepView::ReadKubernetesJwt,
        AuthMethodView::AppRole { role_id, secret_id } => AuthStepView::Login {
            path,
            body: one_member("role_id"@, role_id).insert("secret_id"@, secret_id),
        },
        AuthMethodView::Ldap { password, .. } => AuthStepView::Login {
            path,
            body: one_member("password"@, password),
        },
        AuthMethodView::Okta { password, .. } => AuthStepView::Login {
            path,
            body: one_member("password"@, password),
        },
        AuthMethodView::Azure { resource, .. } => AuthStepView::FetchAzureJwt {
            resource: match resource {
                Some(resource) => resource,
                None => "https://management.azure.com/"@,
            },
        },
        AuthMethodView::Gcp { role } => AuthStepView::FetchGceJwt {
            audience: gce_audience(client, role),
        },
        AuthMethodView::AwsEc2 { signature_type, .. } => AuthStepView::FetchEc2Metadata {
            signature_type,
        },
        AuthMethodView::Jwt { role, token } => AuthStepView::Login {
            path,
            body: one_member("role"@, role).insert("jwt"@, token),
        },
    }
}

/// The step that follows on what could not be fetched.
pub open spec fn metadata_failed(reason: Seq<char>) -> AuthStepView {
    AuthStepView::Failed(VaultErrorView::CloudMetadataFailed(reason))
}

/// The login fields that the metadata of an Azure virtual machine makes.
pub open spec fn azure_fields(
    role: Seq<char>,
    jwt: Seq<char>,
    metadata: AzureVmMetadata,
) -> Map<Seq<char>, Seq<char>> {
    one_member("role"@, role).insert("jwt"@, jwt).insert("vm_name"@, metadata.name@).insert(
        "vmss_name"@,
        metadata.vm_scale_set_name@,
    ).insert("subscription_id"@, metadata.subscription_id@).insert(
        "resource_group_name"@,
        metadata.resource_group_name@,
    )
}

/// The step that follows on an event. An event that has nothing to do with the
/// method starts the authentication anew.
pub open spec fn auth_step(
    client: ClientView,
    method: AuthMethodView,
    backend: Option<Seq<char>>,
    event: AuthEvent,
    nonce: Seq<char>,
) -> AuthStepView {
    let path = login_path(method, backend);
    match (method, event) {
        (AuthMethodView::VaultToken { .. }, _) => first_step(client, method, backend),
        (AuthMethodView::Unauthenticated, _) => first_step(client, method, backend),
        (_, AuthEvent::LoggedIn(Ok(token))) => AuthStepView::Done(client.with_token(token@)),
        (_, AuthEvent::LoggedIn(Err(error))) => AuthStepView::Failed(error@),
        (AuthMethodView::Kubernetes { role }, AuthEvent::KubernetesJwt(Err(reason))) => {
            AuthStepView::Failed(VaultErrorView::KubernetesJwtFailed(reason@))
        },
        (AuthMethodView::Kubernetes { role }, AuthEvent::KubernetesJwt(Ok(bytes))) => {
            if valid_utf8(bytes@) {
                AuthStepView::Login {
                    path,
                    body: one_member("jwt"@, decode_utf8(bytes@)).insert("role"@, role),
                }
            } else {
                AuthStepView::Failed(VaultErrorView::KubernetesJwtInvalidUtf8)
            }
        },
        (AuthMethodView::Azure { .. }, AuthEvent::AzureJwt(Err(reason))) => metadata_failed(
            reason@,
        ),
        (AuthMethodView::Azure { .. }, AuthEvent::AzureJwt(Ok(jwt))) => {
            AuthStepView::FetchAzureVm { jwt: jwt@ }
        },
        (AuthMethodView::Azure { .. }, AuthEvent::AzureVm { metadata: Err(reason), .. }) => {
            metadata_failed(reason@)
        },
        (AuthMethodView::Azure { role, .. }, AuthEvent::AzureVm { jwt, metadata: Ok(vm) }) => {
            AuthStepView::Login { path, body: azure_fields(role, jwt@, vm) }
        },
        (AuthMethodView::Gcp { .. }, AuthEvent::GceJwt(Err(reason))) => metadata_failed(reason@),
        (AuthMethodView::Gcp { role }, AuthEvent::GceJwt(Ok(jwt))) => AuthStepView::Login {
            path,
            body: one_member("role"@, role).insert("jwt"@, jwt@),
        },
        (AuthMethodView::AwsEc2 { .. }, AuthEvent::Ec2Metadata(Err(reason))) => metadata_failed(
            reason@,
        ),
        (AuthMethodView::AwsEc2 { role, .. }, AuthEvent::Ec2Metadata(Ok(fields))) => {
            AuthStepView::Login {
                path,
                body: one_member("role"@, role).union_prefer_right(text_map(fields@)).insert(
                    "nonce"@,
                    nonce,
                ),
            }
        },
        _ => first_step(client, method, backend),
    }
}

/// Whether the step that follows on an event has a nonce in it.
pub open spec fn needs_nonce(method: AuthMethodView, event: AuthEvent) -> bool {
    method is AwsEc2 && event matches AuthEvent::Ec2Metadata(Ok(_))
}

/// With a token at hand, or without any authentication, nothing is asked for:
/// the client is done at once, with that token or as it is.
pub proof fn law_no_login_needed(
    client: ClientView,
    method: AuthMethodView,
    backend: Option<Seq<char>>,
    event: AuthEvent,
    nonce: Seq<char>,
)
    requires
        method is VaultToken || method is Unauthenticated,
    ensures
        auth_step(client, method, backend, event, nonce) == AuthStepView::Done(
            match method {
                AuthMethodView::VaultToken { token } => client.with_token(token),
                _ => client,
            },
        ),
{
}

/// Authentication changes nothing of a client but its token.
pub proof fn law_authentication_keeps_the_rest(
    client: ClientView,
    method: AuthMethodView,
    backend: Option<Seq<char>>,
    event: AuthEvent,
    nonce: Seq<char>,
)
    requires
        auth_step(client, method, backend, event, nonce) is Done,
    ensures
        (auth_step(client, method, backend, event, nonce)->Done_0).base == client.base,
        (auth_step(client, method, backend, event, nonce)->Done_0).retry == client.retry,
{
}

/// By every method that logs in, a login that succeeded ends the authentication
/// with a client that has exactly the token of the login, and is the same client
/// otherwise.
pub proof fn law_login_gives_the_token(
    client: ClientView,
    method: AuthMethodView,
    backend: Option<Seq<char>>,
    token: String,
    nonce: Seq<char>,
)
    requires
        !(method is VaultToken),
        !(method is Unauthenticated),
    ensures
        ({
            let step = auth_step(client, method, backend, AuthEvent::LoggedIn(Ok(token)), nonce);
            &&& step is Done
            &&& step->Done_0.token == Some(token@)
            &&& step->Done_0.base == client.base
            &&& step->Done_0.retry == client.retry
        }),
{
}

/// By every method that logs in, a login that failed fails the authentication,
/// for the same reason.
pub proof fn law_login_failure(
    client: ClientView,
    method: AuthMethodView,
    backend: Option<Seq<char>>,
    error: VaultError,
    nonce: Seq<char>,
)
    requires
        !(method is VaultToken),
        !(method is Unauthenticated),
    ensures
        auth_step(client, method, backend, AuthEvent::LoggedIn(Err(error)), nonce)
            == AuthStepView::Failed(error@),
{
}

/// A token at hand becomes the token of the client, and without authentication
/// the client keeps the token that it has. Nothing else of the client changes,
/// whatever happens.
pub proof fn law_token_at_hand(
    client: ClientView,
    method: AuthMethodView,
    backend: Option<Seq<char>>,
    event: AuthEvent,
    nonce: Seq<char>,
)
    requires
        method is VaultToken || method is Unauthenticated,
    ensures
        ({
            let step = auth_step(client, method, backend, event, nonce);
            &&& step is Done
            &&& method matches AuthMethodView::VaultToken { token } ==> step->Done_0.token == Some(
                token,
            )
            &&& method is Unauthenticated ==> step->Done_0.token == client.token
            &&& step->Done_0.base == client.base
            &&& step->Done_0.retry == client.retry
        }),
{
}

/// A method logs in at the backend that is given, else at the one with the name
/// of the method; a user logs in under the user name.
pub proof fn law_login_path(method: AuthMethodView, backend: Option<Seq<char>>, place: Seq<char>)
    requires
        backend matches Some(given) ==> place == given,
        backend is None ==> match method {
            AuthMethodView::Unauthenticated => false,
            AuthMethodView::VaultToken { .. } => false,
            AuthMethodView::GitHub(_) => place == "github"@,
            AuthMethodView::Kubernetes { .. } => place == "kubernetes"@,
            AuthMethodView::AppRole { .. } => place == "approle"@,
            AuthMethodView::Ldap { .. } => place == "ldap"@,
            AuthMethodView::Okta { .. } => place == "okta"@,
            AuthMethodView::Azure { .. } => place == "azure"@,
            AuthMethodView::Gcp { .. } => place == "gcp"@,
            AuthMethodView::AwsEc2 { .. } => place == "aws"@,
            AuthMethodView::Jwt { .. } => place == "jwt"@,
        },
    ensures
        match method {
            AuthMethodView::Ldap { username, .. } => login_path(method, backend) == "/v1/auth/"@
                + place + "/login/"@ + username,
            AuthMethodView::Okta { username, .. } => login_path(method, backend) == "/v1/auth/"@
                + place + "/login/"@ + username,
            _ => login_path(method, backend) == "/v1/auth/"@ + place + "/login"@,
        },
{
    reveal_strlit("/login");
    reveal_strlit("/login/");
    reveal_strlit("/");
    assert("/login"@ + "/"@ =~= "/login/"@);
    match method {
        AuthMethodView::Ldap { username, .. } => {
            assert("/v1/auth/"@ + place + "/login"@ + "/"@ + username =~= "/v1/auth/"@ + place + (
            "/login"@ + "/"@) + username);
        },
        AuthMethodView::Okta { username, .. } => {
            assert("/v1/auth/"@ + place + "/login"@ + "/"@ + username =~= "/v1/auth/"@ + place + (
            "/login"@ + "/"@) + username);
        },
        _ => {},
    }
}

/// The methods with credentials at hand log in with these, and with nothing else,
/// as soon as there is anything but the outcome of a login.
pub proof fn law_credentials_at_hand(
    client: ClientView,
    method: AuthMethodView,
    backend: Option<Seq<char>>,
    event: AuthEvent,
    nonce: Seq<char>,
)
    requires
        !(event is LoggedIn),
        match method {
            AuthMethodView::GitHub(_) => true,
            AuthMethodView::AppRole { .. } => true,
            AuthMethodView::Ldap { .. } => true,
            AuthMethodView::Okta { .. } => true,
            AuthMethodView::Jwt { .. } => true,
            _ => false,
        },
    ensures
        ({
            let step = auth_step(client, method, backend, event, nonce);
            &&& step is Login
            &&& step->path == login_path(method, backend)
            &&& match method {
                AuthMethodView::GitHub(token) => step->body == map!["token"@ => token],
                AuthMethodView::AppRole { role_id, secret_id } => step->body
                    == map!["role_id"@ => role_id, "secret_id"@ => secret_id],
                AuthMethodView::Ldap { password, .. } => step->body
                    == map!["password"@ => password],
                AuthMethodView::Okta { password, .. } => step->body
                    == map!["password"@ => password],
                AuthMethodView::Jwt { role, token } => step->body
                    == map!["role"@ => role, "jwt"@ => token],
                _ => false,
            }
        }),
{
}

/// The methods without credentials at hand fetch these first: Kubernetes the JWT
/// of the service account, Azure a token for the resource, which is that of its
/// management where none is given, and EC2 the metadata of the signature type.
/// So they do whatever happened that is not theirs.
pub proof fn law_credentials_to_fetch(
    client: ClientView,
    method: AuthMethodView,
    backend: Option<Seq<char>>,
    event: AuthEvent,
    nonce: Seq<char>,
)
    requires
        !(event is LoggedIn),
    ensures
        ({
            let step = auth_step(client, method, backend, event, nonce);
            match method {
                AuthMethodView::Kubernetes { .. } => !(event is KubernetesJwt) ==> step
                    == AuthStepView::ReadKubernetesJwt,
                AuthMethodView::Azure { resource: Some(resource), .. } => !(event is AzureJwt) && !(
                event is AzureVm) ==> step == (AuthStepView::FetchAzureJwt { resource }),
                AuthMethodView::Azure { resource: None, .. } => !(event is AzureJwt) && !(
                event is AzureVm) ==> step == (AuthStepView::FetchAzureJwt {
                    resource: "https://management.azure.com/"@,
                }),
                AuthMethodView::AwsEc2 { signature_type, .. } => !(event is Ec2Metadata) ==> step
                    == (AuthStepView::FetchEc2Metadata { signature_type }),
                _ => true,
            }
        }),
{
}

/// A text without the slashes behind it is the text before them.
pub proof fn law_unslashed(text: Seq<char>, slashes: Seq<char>)
    requires
        text.len() > 0 ==> text.last() != '/',
        forall|i: int| 0 <= i < slashes.len() ==> #[trigger] slashes[i] == '/',
    ensures
        unslashed(text + slashes) == text,
    decreases slashes.len(),
{
    if slashes.len() == 0 {
        assert(text + slashes =~= text);
    } else {
        assert((text + slashes).drop_last() =~= text + slashes.drop_last());
        assert((text + slashes).last() == slashes[slashes.len() - 1]);
        law_unslashed(text, slashes.drop_last());
    }
}

/// GCE is asked for a JWT for the role at this server: the audience is the URL of
/// the server without slashes behind it, `/vault/` and the role.
pub proof fn law_gce_audience(
    client: ClientView,
    role: Seq<char>,
    backend: Option<Seq<char>>,
    event: AuthEvent,
    nonce: Seq<char>,
    text: Seq<char>,
    slashes: Seq<char>,
)
    requires
        !(event is LoggedIn) && !(event is GceJwt),
        client.base.text == text + slashes,
        text.len() > 0 ==> text.last() != '/',
        forall|i: int| 0 <= i < slashes.len() ==> #[trigger] slashes[i] == '/',
    ensures
        auth_step(client, AuthMethodView::Gcp { role }, backend, event, nonce) == (
        AuthStepView::FetchGceJwt { audience: text + "/vault/"@ + role }),
{
    law_unslashed(text, slashes);
}

/// What was fetched goes into the login beside the role, and nothing else does:
/// the JWT of Kubernetes and of GCE, the JWT and the metadata of Azure, and the
/// fields of EC2, which prevail over the role, with the nonce.
pub proof fn law_fetched_credentials(
    client: ClientView,
    method: AuthMethodView,
    backend: Option<Seq<char>>,
    event: AuthEvent,
    nonce: Seq<char>,
)
    ensures
        ({
            let step = auth_step(client, method, backend, event, nonce);
            let path = login_path(method, backend);
            match (method, event) {
                (AuthMethodView::Kubernetes { role }, AuthEvent::KubernetesJwt(Ok(bytes))) => {
                    &&& valid_utf8(bytes@) ==> step == (AuthStepView::Login {
                        path,
                        body: map!["role"@ => role, "jwt"@ => decode_utf8(bytes@)],
                    })
                    &&& !valid_utf8(bytes@) ==> step == AuthStepView::Failed(
                        VaultErrorView::KubernetesJwtInvalidUtf8,
                    )
                },
                (AuthMethodView::Azure { .. }, AuthEvent::AzureJwt(Ok(jwt))) => step == (
                AuthStepView::FetchAzureVm { jwt: jwt@ }),
                (
                    AuthMethodView::Azure { role, .. },
                    AuthEvent::AzureVm { jwt, metadata: Ok(vm) },
                ) => {
                    step == (AuthStepView::Login {
                        path,
                        body: map![
                            "role"@ => role,
                            "jwt"@ => jwt@,
                            "vm_name"@ => vm.name@,
                            "vmss_name"@ => vm.vm_scale_set_name@,
                            "subscription_id"@ => vm.subscription_id@,
                            "resource_group_name"@ => vm.resource_group_name@
                        ],
                    })
                },
                (AuthMethodView::Gcp { role }, AuthEvent::GceJwt(Ok(jwt))) => step == (
                AuthStepView::Login { path, body: map!["role"@ => role, "jwt"@ => jwt@] }),
                (AuthMethodView::AwsEc2 { role, .. }, AuthEvent::Ec2Metadata(Ok(fields))) => {
                    &&& step is Login
                    &&& step->path == path
                    &&& forall|name: Seq<char>| #[trigger]
                        step->body.contains_key(name) <==> name == "role"@ || name == "nonce"@
                            || fields@.contains_key(name)
                    &&& step->body["nonce"@] == nonce
                    &&& !fields@.contains_key("role"@) ==> step->body["role"@] == role
                    &&& forall|name: Seq<char>|
                        fields@.contains_key(name) && name != "nonce"@ ==> (
                        #[trigger] step->body[name]) == fields@[name]@
                },
                _ => true,
            }
        }),
{
    reveal_strlit("role");
    reveal_strlit("jwt");
    reveal_strlit("nonce");
    assert("role"@.len() == 4 && "jwt"@.len() == 3 && "nonce"@.len() == 5);
    match (method, event) {
        (AuthMethodView::Kubernetes { role }, AuthEvent::KubernetesJwt(Ok(bytes))) => {
            assert(one_member("jwt"@, decode_utf8(bytes@)).insert("role"@, role)
                =~= map!["role"@ => role, "jwt"@ => decode_utf8(bytes@)]);
        },
        _ => {},
    }
}

/// What could not be fetched fails the authentication, for the same reason.
pub proof fn law_nothing_fetched(
    client: ClientView,
    method: AuthMethodView,
    backend: Option<Seq<char>>,
    event: AuthEvent,
    nonce: Seq<char>,
)
    ensures
        ({
            let step = auth_step(client, method, backend, event, nonce);
            match (method, event) {
                (AuthMethodView::Kubernetes { .. }, AuthEvent::KubernetesJwt(Err(reason))) => {
                    step == AuthStepView::Failed(VaultErrorView::KubernetesJwtFailed(reason@))
                },
                (AuthMethodView::Azure { .. }, AuthEvent::AzureJwt(Err(reason))) => step
                    == AuthStepView::Failed(VaultErrorView::CloudMetadataFailed(reason@)),
                (
                    AuthMethodView::Azure { .. },
                    AuthEvent::AzureVm { metadata: Err(reason), .. },
                ) => step == AuthStepView::Failed(VaultErrorView::CloudMetadataFailed(reason@)),
                (AuthMethodView::Gcp { .. }, AuthEvent::GceJwt(Err(reason))) => step
                    == AuthStepView::Failed(VaultErrorView::CloudMetadataFailed(reason@)),
                (AuthMethodView::AwsEc2 { .. }, AuthEvent::Ec2Metadata(Err(reason))) => step
                    == AuthStepView::Failed(VaultErrorView::CloudMetadataFailed(reason@)),
                _ => true,
            }
        }),
{
}

/// Whether an event is what comes of a step.
pub open spec fn answers(step: AuthStepView, event: AuthEvent) -> bool {
    match step {
        AuthStepView::Done(_) => false,
        AuthStepView::Failed(_) => false,
        AuthStepView::ReadKubernetesJwt => event is KubernetesJwt,
        AuthStepView::FetchAzureJwt { .. } => event is AzureJwt,
        AuthStepView::FetchAzureVm { .. } => event is AzureVm,
        AuthStepView::FetchGceJwt { .. } => event is GceJwt,
        AuthStepView::FetchEc2Metadata { .. } => event is Ec2Metadata,
        AuthStepView::Login { .. } => event is LoggedIn,
    }
}

/// How many steps can follow on a step.
pub open spec fn steps_left(step: AuthStepView) -> nat {
    match step {
        AuthStepView::Done(_) => 0,
        AuthStepView::Failed(_) => 0,
        AuthStepView::Login { .. } => 1,
        AuthStepView::FetchAzureJwt { .. } => 3,
        _ => 2,
    }
}

/// Every event that comes of a step brings the authentication nearer to its
/// end.
pub proof fn law_authentication_ends(
    client: ClientView,
    method: AuthMethodView,
    backend: Option<Seq<char>>,
    before: AuthEvent,
    event: AuthEvent,
    nonce: Seq<char>,
)
    requires
        answers(auth_step(client, method, backend, before, nonce), event),
    ensures
        steps_left(auth_step(client, method, backend, event, nonce)) < steps_left(
            auth_step(client, method, backend, before, nonce),
        ),
{
}

/// A login goes to a path of the Vault API.
pub proof fn law_login_under_api(method: AuthMethodView, backend: Option<Seq<char>>)
    ensures
        api_path(login_path(method, backend)),
{
    reveal_strlit("/v1/auth/");
    reveal_strlit("/v1/");
    assert(login_path(method, backend).take(4) =~= "/v1/"@);
}

/// A lower-case hexadecimal digit.
pub open spec fn lower_hex(c: char) -> bool {
    '0' <= c <= '9' || 'a' <= c <= 'f'
}

/// Whether a text is a random UUID: 32 hexadecimal digits in groups of eight,
/// four, four, four and twelve, of version 4 and the usual variant.
pub open spec fn random_uuid(text: Seq<char>) -> bool {
    &&& text.len() == 36
    &&& forall|i: int|
        0 <= i < 36 ==> if i == 8 || i == 13 || i == 18 || i == 23 {
            #[trigger] text[i] == '-'
        } else {
            lower_hex(text[i])
        }
    &&& text[14] == '4'
    &&& text[19] == '8' || text[19] == '9' || text[19] == 'a' || text[19] == 'b'
}

/// `uuid::Uuid::new_v4`, written by its `Display`: a random UUID of version 4,
/// hyphenated and in lower case. Which one is a matter of chance.
#[verifier::external_body]
fn fresh_nonce() -> (nonce: String)
    ensures
        random_uuid(nonce@),
{
    uuid::Uuid::new_v4().to_string()
}

/// `String::from_utf8`: the text that the bytes encode, if they are valid
/// UTF-8.
#[verifier::external_body]
fn text_of_bytes(bytes: Vec<u8>) -> (text: Option<String>)
    ensures
        match text {
            Some(text) => valid_utf8(bytes@) && text@ == decode_utf8(bytes@),
            None => !valid_utf8(bytes@),
        },
{
    String::from_utf8(bytes).ok()
}

/// Writes [`unslashed`].
fn without_slashes(s: &str) -> (res: String)
    ensures
        res@ == unslashed(s@),
{
    let chars = chars_of(s);
    let mut end: usize = chars.len();
    assert(chars@.take(end as int) =~= s@);
    while end > 0 && chars[end - 1] == '/'
        invariant
            end <= chars@.len(),
            unslashed(s@) == unslashed(chars@.take(end as int)),
        decreases end,
    {
        assert(chars@.take(end as int).drop_last() =~= chars@.take(end - 1));
        end = end - 1;
    }
    assert(chars@.subrange(0, end as int) =~= chars@.take(end as int));
    string_of(&chars, 0, end)
}

/// An object of one member.
fn member(name: &str, value: &str) -> (body: StringMap<String>)
    ensures
        text_map(body@) == one_member(name@, value@),
{
    let mut body: StringMap<String> = StringMap::new();
    body.insert(name.to_owned(), value.to_owned());
    assert(text_map(body@) =~= one_member(name@, value@));
    body
}

/// Gives a member of an object a value.
fn set_member(body: &mut StringMap<String>, name: &str, value: &str)
    ensures
        text_map(final(body)@) == text_map(old(body)@).insert(name@, value@),
{
    let ghost before = body@;
    body.insert(name.to_owned(), value.to_owned());
    assert(text_map(body@) =~= text_map(before).insert(name@, value@));
}

/// The path under which a method logs in.
fn write_login_path(method: &AuthMethod, backend: Option<&str>) -> (path: String)
    ensures
        path@ == login_path(method@, opt_str(backend)),
{
    let usual = match method {
        AuthMethod::GitHub(_) => "github",
        AuthMethod::Kubernetes { .. } => "kubernetes",
        AuthMethod::AppRole { .. } => "approle",
        AuthMethod::Ldap { .. } => "ldap",
        AuthMethod::Okta { .. } => "okta",
        AuthMethod::Azure { .. } => "azure",
        AuthMethod::Gcp { .. } => "gcp",
        AuthMethod::AwsEc2 { .. } => "aws",
        AuthMethod::Jwt { .. } => "jwt",
        _ => "",
    };
    let mut path = "/v1/auth/".to_owned();
    match backend {
        Some(backend) => path.append(backend),
        None => path.append(usual),
    }
    path.append("/login");
    match method {
        AuthMethod::Ldap { username, .. } => {
            path.append("/");
            path.append(username.as_str());
        },
        AuthMethod::Okta { username, .. } => {
            path.append("/");
            path.append(username.as_str());
        },
        _ => {},
    }
    path
}

impl VaultClient {
    /// What an authentication starts with.
    fn start_authentication(&self, method: &AuthMethod, backend: Option<&str>) -> (step: AuthStep)
        ensures
            step@ == first_step(self@, method@, opt_str(backend)),
    {
        match method {
            AuthMethod::VaultToken { token } => AuthStep::Done(self.with_token(token.clone())),
            AuthMethod::Unauthenticated => AuthStep::Done(self.clone()),
            AuthMethod::GitHub(token) => AuthStep::Login {
                path: write_login_path(method, backend),
                body: member("token", token.as_str()),
            },
            AuthMethod::Kubernetes { .. } => AuthStep::ReadKubernetesJwt,
            AuthMethod::AppRole { role_id, secret_id } => {
                let mut body = member("role_id", role_id.as_str());
                set_member(&mut body, "secret_id", secret_id.as_str());
                AuthStep::Login { path: write_login_path(method, backend), body }
            },
            AuthMethod::Ldap { password, .. } => AuthStep::Login {
                path: write_login_path(method, backend),
                body: member("password", password.as_str()),
            },
            AuthMethod::Okta { password, .. } => AuthStep::Login {
                path: write_login_path(method, backend),
                body: member("password", password.as_str()),
            },
            AuthMethod::Azure { resource, .. } => AuthStep::FetchAzureJwt {
                resource: match resource {
                    Some(resource) => resource.clone(),
                    None => "https://management.azure.com/".to_owned(),
                },
            },
            AuthMethod::Gcp { role } => {
                let mut audience = without_slashes(self.base_url().as_str());
                audience.append("/vault/");
                audience.append(role.as_str());
                AuthStep::FetchGceJwt { audience }
            },
            AuthMethod::AwsEc2 { signature_type, .. } => AuthStep::FetchEc2Metadata {
                signature_type: *signature_type,
            },
            AuthMethod::Jwt { role, token } => {
                let mut body = member("role", role.as_str());
                set_member(&mut body, "jwt", token.as_str());
                AuthStep::Login { path: write_login_path(method, backend), body }
            },
        }
    }

    /// The next step of an authentication, which logs in with the given nonce
    /// where it needs one.
    pub fn authenticate_with_nonce(
        &self,
        method: &AuthMethod,
        backend: Option<&str>,
        event: AuthEvent,
        nonce: &str,
    ) -> (step: AuthStep)
        ensures
            step@ == auth_step(self@, method@, opt_str(backend), event, nonce@),
    {
        match method {
            AuthMethod::VaultToken { .. } => {
                return self.start_authentication(method, backend);
            },
            AuthMethod::Unauthenticated => {
                return self.start_authentication(method, backend);
            },
            _ => {},
        }
        match (method, event) {
            (_, AuthEvent::LoggedIn(Ok(token))) => AuthStep::Done(self.with_token(token)),
            (_, AuthEvent::LoggedIn(Err(error))) => AuthStep::Failed(error),
            (AuthMethod::Kubernetes { .. }, AuthEvent::KubernetesJwt(Err(reason))) => {
                AuthStep::Failed(VaultError::KubernetesJwtFailed(reason))
            },
            (AuthMethod::Kubernetes { role }, AuthEvent::KubernetesJwt(Ok(bytes))) => {
                match text_of_bytes(bytes) {
                    Some(jwt) => {
                        let mut body = member("jwt", jwt.as_str());
                        set_member(&mut body, "role", role.as_str());
                        AuthStep::Login { path: write_login_path(method, backend), body }
                    },
                    None => AuthStep::Failed(VaultError::KubernetesJwtInvalidUtf8),
                }
            },
            (AuthMethod::Azure { .. }, AuthEvent::AzureJwt(Err(reason))) => AuthStep::Failed(
                VaultError::CloudMetadataFailed(reason),
            ),
            (AuthMethod::Azure { .. }, AuthEvent::AzureJwt(Ok(jwt))) => AuthStep::FetchAzureVm {
                jwt,
            },
            (AuthMethod::Azure { role, .. }, AuthEvent::AzureVm { jwt, metadata }) => {
                match metadata {
                    Err(reason) => AuthStep::Failed(VaultError::CloudMetadataFailed(reason)),
                    Ok(metadata) => {
                        let mut body = member("role", role.as_str());
                        set_member(&mut body, "jwt", jwt.as_str());
                        set_member(&mut body, "vm_name", metadata.name.as_str());
                        set_member(&mut body, "vmss_name", metadata.vm_scale_set_name.as_str());
                        set_member(
                            &mut body,
                            "subscription_id",
                            metadata.subscription_id.as_str(),
                        );
                        set_member(
                            &mut body,
                            "resource_group_name",
                            metadata.resource_group_name.as_str(),
                        );
                        AuthStep::Login { path: write_login_path(method, backend), body }
                    },
                }
            },
            (AuthMethod::Gcp { .. }, AuthEvent::GceJwt(Err(reason))) => AuthStep::Failed(
                VaultError::CloudMetadataFailed(reason),
            ),
            (AuthMethod::Gcp { role }, AuthEvent::GceJwt(Ok(jwt))) => {
                let mut body = member("role", role.as_str());
                set_member(&mut body, "jwt", jwt.as_str());
                AuthStep::Login { path: write_login_path(method, backend), body }
            },
            (AuthMethod::AwsEc2 { .. }, AuthEvent::Ec2Metadata(Err(reason))) => AuthStep::Failed(
                VaultError::CloudMetadataFailed(reason),
            ),
            (AuthMethod::AwsEc2 { role, .. }, AuthEvent::Ec2Metadata(Ok(fields))) => {
                let mut body = fields;
                if body.get("role").is_none() {
                    set_member(&mut body, "role", role.as_str());
                }
                set_member(&mut body, "nonce", nonce);
                proof {
                    assert(text_map(body@) =~= one_member("role"@, role@).union_prefer_right(
                        text_map(fields@),
                    ).insert("nonce"@, nonce@));
                }
                AuthStep::Login { path: write_login_path(method, backend), body }
            },
            _ => self.start_authentication(method, backend),
        }
    }

    /// The next step of an authentication.
    ///
    /// Starting from [`AuthEvent::Start`], the caller does what the step says
    /// and hands back what came of it, until the authentication is done or has
    /// failed. A login with EC2 metadata has a random nonce of its own.
    pub fn authenticate(
        &self,
        method: &AuthMethod,
        backend: Option<&str>,
        event: AuthEvent,
    ) -> (step: AuthStep)
        ensures
            needs_nonce(method@, event) ==> exists|nonce: Seq<char>|
                random_uuid(nonce) && step@ == #[trigger] auth_step(
                    self@,
                    method@,
                    opt_str(backend),
                    event,
                    nonce,
                ),
            !needs_nonce(method@, event) ==> forall|nonce: Seq<char>|
                step@ == #[trigger] auth_step(self@, method@, opt_str(backend), event, nonce),
    {
        let needed = match (method, &event) {
            (AuthMethod::AwsEc2 { .. }, AuthEvent::Ec2Metadata(Ok(_))) => true,
            _ => false,
        };
        if needed {
            let nonce = fresh_nonce();
            self.authenticate_with_nonce(method, backend, event, nonce.as_str())
        } else {
            self.authenticate_with_nonce(method, backend, event, "")
        }
    }

    /// The token of a login, from the body of the answer and what that was
    /// read as.
    pub fn login_token(&self, body: String, token: Result<ClientToken, String>) -> (read: Result<
        String,
        VaultError,
    >)
        ensures
            match (token, read) {
                (Ok(token), Ok(read)) => read == token.auth.client_token,
                (Err(msg), Err(error)) => error@ == (VaultErrorView::BadJson {
                    body: body@,
                    msg: msg@,
                }),
                _ => false,
            },
    {
        match token {
            Ok(token) => Ok(token.auth.client_token),
            Err(msg) => Err(VaultError::BadJson { body, msg }),
        }
    }
}

} // verus!
