//! Configuration: the options, what follows from them, and environment files.
//!
//! Options are aligned with the Vault CLI `-method=<TYPE>` + `KEY=VALUE`
//! conventions.

use vstd::prelude::*;
use vstd::string::*;

use crate::address::{address_text, parsed_url, plain_host, web_scheme};
use crate::address::{parse_url, Address, AddressView};
use crate::auth::{AuthMethod, AuthMethodView};
use crate::cloud_metadata::Ec2SignatureTypeArg;
use crate::launch::{append_vars, kept_vars, unlisted_vars};
use crate::secrets_file::{lemma_run_end_bounds, line_from, run_end, CharClass};
use crate::secrets_laws::{lemma_first_line, lemma_run_shift, lemma_run_to};
use crate::text::{chars_of, same_text, string_of, trim, trim_from};
use crate::text::{law_trimmed, law_trimmed_already, law_trimmed_between, trims_to, white_space};
use crate::text::{opt_str, opt_text, pair_views, text_views, trimmed};
use crate::types::{DuplicateBehaviorArg, LogLevelArg};
use crate::vault_api::resolver::{distinct_names, has_name, last_wins, merge_vars, VarView};
use crate::vault_api::resolver::{
    law_deduplicated_names, law_last_wins_values, law_overwriting_keeps_the_last,
    lemma_last_wins_from, lemma_vars_map_names,
};

verus! {

/// All configuration resolved from CLI, environment variables, and defaults.
#[derive(Debug, Clone)]
pub struct Options {
    /// Vault host (IP or DNS name).
    pub host: String,
    /// Vault port.
    pub port: u16,
    /// Full Vault address (scheme://host:port); overrides host/port/tls.
    pub addr: Option<String>,
    /// Authentication method (token, github, kubernetes, approle, ldap, okta,
    /// azure, gcp, aws, jwt).
    pub method: String,
    /// Mount path for the auth backend (e.g. "oidc" for auth/oidc).
    pub path: Option<String>,
    /// Vault token (for the method `token` or as the GitHub PAT for the method
    /// `github`).
    pub token: Option<String>,
    /// Role name (required for the methods kubernetes, azure, gcp, aws, jwt).
    pub role: Option<String>,
    /// AppRole role ID (for the method `approle`).
    pub role_id: Option<String>,
    /// AppRole secret ID (for the method `approle`).
    pub secret_id: Option<String>,
    /// Username (for the methods `ldap` and `okta`).
    pub username: Option<String>,
    /// Password (for the methods `ldap` and `okta`).
    pub password: Option<String>,
    /// JWT value (for the methods `jwt` and `kubernetes`).
    pub jwt: Option<String>,
    /// Path to file containing a JWT (for the methods `jwt` and `kubernetes`).
    pub jwt_file: Option<String>,
    /// Azure resource URL for MSI (for the method `azure`).
    pub resource: Option<String>,
    /// AWS EC2 signature type (pkcs7, identity, rsa2048).
    pub aws_signature_type: Ec2SignatureTypeArg,
    /// Path to the secrets file.
    pub secrets_file: String,
    /// Command to run after fetching secrets.
    pub cmd: String,
    /// Arguments to pass to CMD.
    pub args: Vec<String>,
    /// Use TLS when connecting to Vault.
    pub connect_tls: bool,
    /// Validate TLS certificates.
    pub validate_certs: bool,
    /// Merge the parent environment with fetched secrets.
    pub inherit_env: bool,
    /// Environment variables to remove before executing CMD.
    pub inherit_env_blacklist: Vec<String>,
    /// Base delay for retry backoff (milliseconds).
    pub retry_base_delay_ms: u64,
    /// Maximum number of retry attempts.
    pub retry_attempts: u32,
    /// Log level.
    pub log_level: LogLevelArg,
    /// Use PATH when searching for CMD.
    pub use_path: bool,
    /// Maximum concurrent requests to Vault (0 = unlimited).
    pub max_concurrent_requests: usize,
    /// Behavior when duplicate environment variables are detected.
    pub duplicate_behavior: DuplicateBehaviorArg,
}

/// What is wrong with the options.
#[derive(Debug, Clone, PartialEq, Eq)]
pub enum ConfigError {
    /// The address is no URL, for the reason given.
    MalformedAddr { addr: String, reason: String },
    /// The address goes on with a path.
    AddrWithPath { addr: String, path: String },
    /// The scheme of the address is not one of the web.
    AddrScheme { addr: String, scheme: String },
    /// No secrets file is given.
    NoSecretsFile,
    /// No command is given.
    NoCommand,
}

/// The model of a [`ConfigError`].
pub enum ConfigErrorView {
    MalformedAddr { addr: Seq<char>, reason: Seq<char> },
    AddrWithPath { addr: Seq<char>, path: Seq<char> },
    AddrScheme { addr: Seq<char>, scheme: Seq<char> },
    NoSecretsFile,
    NoCommand,
}

impl View for ConfigError {
    type V = ConfigErrorView;

    open spec fn view(&self) -> ConfigErrorView {
        match *self {
            ConfigError::MalformedAddr { addr, reason } => ConfigErrorView::MalformedAddr {
                addr: addr@,
                reason: reason@,
            },
            ConfigError::AddrWithPath { addr, path } => ConfigErrorView::AddrWithPath {
                addr: addr@,
                path: path@,
            },
            ConfigError::AddrScheme { addr, scheme } => ConfigErrorView::AddrScheme {
                addr: addr@,
                scheme: scheme@,
            },
            ConfigError::NoSecretsFile => ConfigErrorView::NoSecretsFile,
            ConfigError::NoCommand => ConfigErrorView::NoCommand,
        }
    }
}

impl ConfigErrorView {
    /// What the error says.
    pub open spec fn said(self) -> Seq<char> {
        match self {
            ConfigErrorView::MalformedAddr { addr, .. } => "failed to parse VAULT_ADDR: "@ + addr,
            ConfigErrorView::AddrWithPath { addr, path } => "VAULT_ADDR '"@ + addr
                + "' contains a non-empty path '"@ + path
                + "'. Only scheme://host:port is supported."@,
            ConfigErrorView::AddrScheme { addr, scheme } => "VAULT_ADDR '"@ + addr
                + "' has unsupported scheme '"@ + scheme + "'. Use http:// or https://."@,
            ConfigErrorView::NoSecretsFile => "--secrets-file is required"@,
            ConfigErrorView::NoCommand => "CMD is required"@,
        }
    }

    /// What made the error come about, where that is known.
    pub open spec fn cause(self) -> Option<Seq<char>> {
        match self {
            ConfigErrorView::MalformedAddr { reason, .. } => Some(reason),
            _ => None,
        }
    }
}

impl ConfigError {
    /// What the error says.
    pub fn message(&self) -> (message: String)
        ensures
            message@ == self@.said(),
    {
        let mut message = String::new();
        match self {
            ConfigError::MalformedAddr { addr, .. } => {
                message.append("failed to parse VAULT_ADDR: ");
                message.append(addr.as_str());
            },
            ConfigError::AddrWithPath { addr, path } => {
                message.append("VAULT_ADDR '");
                message.append(addr.as_str());
                message.append("' contains a non-empty path '");
                message.append(path.as_str());
                message.append("'. Only scheme://host:port is supported.");
            },
            ConfigError::AddrScheme { addr, scheme } => {
                message.append("VAULT_ADDR '");
                message.append(addr.as_str());
                message.append("' has unsupported scheme '");
                message.append(scheme.as_str());
                message.append("'. Use http:// or https://.");
            },
            ConfigError::NoSecretsFile => {
                message.append("--secrets-file is required");
            },
            ConfigError::NoCommand => {
                message.append("CMD is required");
            },
        }
        assert(message@ =~= self@.said());
        message
    }

    /// What made the error come about, where that is known.
    pub fn cause(&self) -> (cause: Option<&str>)
        ensures
            opt_str(cause) == self@.cause(),
    {
        match self {
            ConfigError::MalformedAddr { reason, .. } => Some(reason.as_str()),
            _ => None,
        }
    }
}

/// A server, as an address gives it.
pub struct ServerView {
    pub tls: bool,
    pub host: Seq<char>,
    pub port: u16,
}

/// The server that an address leads to, once it was parsed.
pub open spec fn server_at(addr: Seq<char>, url: AddressView) -> Result<
    ServerView,
    ConfigErrorView,
> {
    if url.path != "/"@ && url.path.len() > 0 {
        Err(ConfigErrorView::AddrWithPath { addr, path: url.path })
    } else if !url.web() {
        Err(ConfigErrorView::AddrScheme { addr, scheme: url.scheme })
    } else {
        let tls = url.scheme == web_scheme(true);
        Ok(
            ServerView {
                tls,
                host: match url.host {
                    Some(host) => host,
                    None => "localhost"@,
                },
                port: match url.port {
                    Some(port) => port,
                    None => if tls {
                        443
                    } else {
                        80
                    },
                },
            },
        )
    }
}

/// The server that an address leads to.
pub open spec fn server_of(addr: Seq<char>) -> Result<ServerView, ConfigErrorView> {
    match parsed_url(addr) {
        Ok(url) => server_at(addr, url),
        Err(reason) => Err(ConfigErrorView::MalformedAddr { addr, reason }),
    }
}

/// An address leads to the host and the port that it names, with TLS if and only if its
/// scheme is `https`. One that goes on with a path, or has another scheme than those of
/// the web, or is no URL at all, is refused for that reason.
pub proof fn law_server_of(addr: Seq<char>, url: AddressView, reason: Seq<char>)
    ensures
        ({
            let bare = url.path == seq!['/'] || url.path.len() == 0;
            let found = server_at(addr, url);
            &&& bare && (url.scheme == "http"@ || url.scheme == "https"@) ==> {
                &&& found is Ok
                &&& found->Ok_0.tls <==> url.scheme == "https"@
                &&& url.host matches Some(host) ==> found->Ok_0.host == host
                &&& url.host is None ==> found->Ok_0.host == "localhost"@
                &&& url.port matches Some(port) ==> found->Ok_0.port == port
                &&& url.port is None && url.scheme == "https"@ ==> found->Ok_0.port == 443
                &&& url.port is None && url.scheme == "http"@ ==> found->Ok_0.port == 80
            }
            &&& !bare ==> found == Err::<ServerView, ConfigErrorView>(
                ConfigErrorView::AddrWithPath { addr, path: url.path },
            )
            &&& bare && url.scheme != "http"@ && url.scheme != "https"@ ==> found == Err::<
                ServerView,
                ConfigErrorView,
            >(ConfigErrorView::AddrScheme { addr, scheme: url.scheme })
            &&& parsed_url(addr) == Ok::<AddressView, Seq<char>>(url) ==> server_of(addr) == found
            &&& parsed_url(addr) == Err::<AddressView, Seq<char>>(reason) ==> server_of(addr)
                == Err::<ServerView, ConfigErrorView>(
                ConfigErrorView::MalformedAddr { addr, reason },
            )
        }),
{
    reveal_strlit("/");
    reveal_strlit("http");
    reveal_strlit("https");
    assert("/"@ =~= seq!['/']);
    assert("http"@.len() != "https"@.len());
}

/// What the errors say: each its own words, and what it is about.
pub proof fn law_config_errors(addr: Seq<char>, about: Seq<char>)
    ensures
        (ConfigErrorView::MalformedAddr { addr, reason: about }).said()
            == "failed to parse VAULT_ADDR: "@ + addr,
        (ConfigErrorView::MalformedAddr { addr, reason: about }).cause() == Some(about),
        (ConfigErrorView::AddrWithPath { addr, path: about }).said() == "VAULT_ADDR '"@ + addr
            + "' contains a non-empty path '"@ + about
            + "'. Only scheme://host:port is supported."@,
        (ConfigErrorView::AddrScheme { addr, scheme: about }).said() == "VAULT_ADDR '"@ + addr
            + "' has unsupported scheme '"@ + about + "'. Use http:// or https://."@,
        ConfigErrorView::NoSecretsFile.said() == "--secrets-file is required"@,
        ConfigErrorView::NoCommand.said() == "CMD is required"@,
{
}

/// Options that were moved to a server have its host, its port and its use of TLS, and
/// are the same otherwise.
pub proof fn law_moved_to(after: Options, before: Options, server: ServerView)
    requires
        moved_to(after, before, server),
    ensures
        after.host@ == server.host,
        after.port == server.port,
        after.connect_tls == server.tls,
        after == (Options {
            host: after.host,
            port: after.port,
            connect_tls: after.connect_tls,
            ..before
        }),
{
}

/// Whether options are those before, but for the given server.
pub open spec fn moved_to(after: Options, before: Options, server: ServerView) -> bool {
    &&& after == (Options {
        host: after.host,
        port: server.port,
        connect_tls: server.tls,
        ..before
    })
    &&& after.host@ == server.host
}

/// Whether the JWT to log in with stands in a file.
pub open spec fn jwt_from_file(options: Options) -> bool {
    &&& options.method@ == "jwt"@ || options.method@ == "kubernetes"@
    &&& options.role is Some
    &&& options.jwt is None
    &&& options.jwt_file is Some
}

/// The JWT that options give, by its value or in a file with the text
/// `jwt_text`.
pub open spec fn given_jwt(options: Options, jwt_text: Option<Seq<char>>) -> Option<Seq<char>> {
    match (options.jwt, options.jwt_file) {
        (Some(jwt), _) => Some(jwt@),
        (None, Some(_)) => Some(trimmed(jwt_text->0)),
        (None, None) => None,
    }
}

/// The authentication method that options ask for. `jwt_text` is the text of
/// the file with a JWT, where it is needed. A JWT that is given for
/// `kubernetes` stands in for that of the service account.
pub open spec fn asked_method(options: Options, jwt_text: Option<Seq<char>>) -> AuthMethodView {
    let method = options.method@;
    if method == "token"@ {
        match options.token {
            Some(token) => AuthMethodView::VaultToken { token: token@ },
            None => AuthMethodView::Unauthenticated,
        }
    } else if method == "github"@ {
        match options.token {
            Some(token) => AuthMethodView::GitHub(token@),
            None => AuthMethodView::Unauthenticated,
        }
    } else if method == "kubernetes"@ {
        match (options.role, given_jwt(options, jwt_text)) {
            (Some(role), Some(token)) => AuthMethodView::Jwt { role: role@, token },
            (Some(role), None) => AuthMethodView::Kubernetes { role: role@ },
            (None, _) => AuthMethodView::Unauthenticated,
        }
    } else if method == "approle"@ {
        match (options.role_id, options.secret_id) {
            (Some(role_id), Some(secret_id)) => AuthMethodView::AppRole {
                role_id: role_id@,
                secret_id: secret_id@,
            },
            _ => AuthMethodView::Unauthenticated,
        }
    } else if method == "ldap"@ {
        match (options.username, options.password) {
            (Some(username), Some(password)) => AuthMethodView::Ldap {
                username: username@,
                password: password@,
            },
            _ => AuthMethodView::Unauthenticated,
        }
    } else if method == "okta"@ {
        match (options.username, options.password) {
            (Some(username), Some(password)) => AuthMethodView::Okta {
                username: username@,
                password: password@,
            },
            _ => AuthMethodView::Unauthenticated,
        }
    } else if method == "azure"@ {
        match options.role {
            Some(role) => AuthMethodView::Azure {
                role: role@,
                resource: opt_text(options.resource),
            },
            None => AuthMethodView::Unauthenticated,
        }
    } else if method == "gcp"@ {
        match options.role {
            Some(role) => AuthMethodView::Gcp { role: role@ },
            None => AuthMethodView::Unauthenticated,
        }
    } else if method == "aws"@ {
        match options.role {
            Some(role) => AuthMethodView::AwsEc2 {
                role: role@,
                signature_type: options.aws_signature_type.0,
            },
            None => AuthMethodView::Unauthenticated,
        }
    } else if method == "jwt"@ {
        match (options.role, given_jwt(options, jwt_text)) {
            (Some(role), Some(token)) => AuthMethodView::Jwt { role: role@, token },
            _ => AuthMethodView::Unauthenticated,
        }
    } else {
        AuthMethodView::Unauthenticated
    }
}

/// A JWT that is given counts before one in a file, which counts without the white space
/// around it.
pub proof fn law_given_jwt(options: Options, before: Seq<char>, jwt: Seq<char>, after: Seq<char>)
    requires
        forall|i: int| 0 <= i < before.len() ==> white_space(#[trigger] before[i]),
        forall|i: int| 0 <= i < after.len() ==> white_space(#[trigger] after[i]),
        jwt.len() > 0 ==> !white_space(jwt[0]) && !white_space(jwt.last()),
    ensures
        options.jwt matches Some(given) ==> given_jwt(options, Some(before + jwt + after)) == Some(
            given@,
        ) && given_jwt(options, None) == Some(given@),
        options.jwt is None && options.jwt_file is Some ==> given_jwt(
            options,
            Some(before + jwt + after),
        ) == Some(jwt),
        options.jwt is None && options.jwt_file is None ==> given_jwt(options, None) is None,
{
    law_trimmed_between(before, jwt, after);
}

/// The names of the methods differ.
proof fn lemma_method_names()
    ensures
        ({
            let names = seq![
                "token"@,
                "github"@,
                "kubernetes"@,
                "approle"@,
                "ldap"@,
                "okta"@,
                "azure"@,
                "gcp"@,
                "aws"@,
                "jwt"@,
            ];
            forall|i: int, j: int|
                0 <= i < j < names.len() ==> #[trigger] names[i] != #[trigger] names[j]
        }),
{
    reveal_strlit("token");
    reveal_strlit("github");
    reveal_strlit("kubernetes");
    reveal_strlit("approle");
    reveal_strlit("ldap");
    reveal_strlit("okta");
    reveal_strlit("azure");
    reveal_strlit("gcp");
    reveal_strlit("aws");
    reveal_strlit("jwt");
    let names = seq![
        "token"@,
        "github"@,
        "kubernetes"@,
        "approle"@,
        "ldap"@,
        "okta"@,
        "azure"@,
        "gcp"@,
        "aws"@,
        "jwt"@,
    ];
    assert forall|i: int, j: int| 0 <= i < j < names.len() implies #[trigger] names[i]
        != #[trigger] names[j] by {
        assert(names[i].len() != names[j].len() || names[i][0] != names[j][0]);
    }
}

/// Each method takes what it needs from the options of that name, and is used if and
/// only if all of that is given. A name that is none of a method asks for none.
#[verifier::rlimit(40)]
pub proof fn law_asked_method(options: Options, jwt_text: Option<Seq<char>>)
    ensures
        ({
            let name = options.method@;
            let method = asked_method(options, jwt_text);
            let jwt = given_jwt(options, jwt_text);
            &&& name == "token"@ ==> method == (match options.token {
                Some(token) => AuthMethodView::VaultToken { token: token@ },
                None => AuthMethodView::Unauthenticated,
            })
            &&& name == "github"@ ==> method == (match options.token {
                Some(token) => AuthMethodView::GitHub(token@),
                None => AuthMethodView::Unauthenticated,
            })
            &&& name == "approle"@ ==> (if options.role_id is Some && options.secret_id is Some {
                method == (AuthMethodView::AppRole {
                    role_id: options.role_id->0@,
                    secret_id: options.secret_id->0@,
                })
            } else {
                method is Unauthenticated
            })
            &&& name == "ldap"@ ==> (if options.username is Some && options.password is Some {
                method == (AuthMethodView::Ldap {
                    username: options.username->0@,
                    password: options.password->0@,
                })
            } else {
                method is Unauthenticated
            })
            &&& name == "okta"@ ==> (if options.username is Some && options.password is Some {
                method == (AuthMethodView::Okta {
                    username: options.username->0@,
                    password: options.password->0@,
                })
            } else {
                method is Unauthenticated
            })
            &&& name == "gcp"@ ==> (if options.role is Some {
                method == (AuthMethodView::Gcp { role: options.role->0@ })
            } else {
                method is Unauthenticated
            })
            &&& name == "aws"@ ==> (if options.role is Some {
                method == (AuthMethodView::AwsEc2 {
                    role: options.role->0@,
                    signature_type: options.aws_signature_type.0,
                })
            } else {
                method is Unauthenticated
            })
            &&& name == "azure"@ ==> (if options.role is Some {
                &&& method is Azure
                &&& method->Azure_role == options.role->0@
                &&& options.resource matches Some(resource) ==> method->resource == Some(resource@)
                &&& options.resource is None ==> method->resource is None
            } else {
                method is Unauthenticated
            })
            &&& name == "jwt"@ ==> (if options.role is Some && jwt is Some {
                method == (AuthMethodView::Jwt { role: options.role->0@, token: jwt->0 })
            } else {
                method is Unauthenticated
            })
            &&& name == "kubernetes"@ ==> (if options.role is Some && jwt is Some {
                method == (AuthMethodView::Jwt { role: options.role->0@, token: jwt->0 })
            } else if options.role is Some {
                method == (AuthMethodView::Kubernetes { role: options.role->0@ })
            } else {
                method is Unauthenticated
            })
            &&& !seq![
                "token"@,
                "github"@,
                "kubernetes"@,
                "approle"@,
                "ldap"@,
                "okta"@,
                "azure"@,
                "gcp"@,
                "aws"@,
                "jwt"@,
            ].contains(name) ==> method is Unauthenticated
        }),
{
    lemma_method_names();
    let names = seq![
        "token"@,
        "github"@,
        "kubernetes"@,
        "approle"@,
        "ldap"@,
        "okta"@,
        "azure"@,
        "gcp"@,
        "aws"@,
        "jwt"@,
    ];
    assert(names.len() == 10);
    assert forall|i: int| 0 <= i < names.len() implies names.contains(#[trigger] names[i]) by {}
    assert(names[0] == "token"@ && names[1] == "github"@ && names[2] == "kubernetes"@ && names[3]
        == "approle"@ && names[4] == "ldap"@ && names[5] == "okta"@ && names[6] == "azure"@
        && names[7] == "gcp"@ && names[8] == "aws"@ && names[9] == "jwt"@);
}

/// The mount path of the auth backend.
pub open spec fn backend_path(options: Options) -> Seq<char> {
    match options.path {
        Some(path) => path@,
        None => options.method@,
    }
}

/// Whether the options have what is needed, or what is missing.
pub open spec fn checked(options: Options) -> Result<(), ConfigErrorView> {
    if options.secrets_file@.len() == 0 {
        Err(ConfigErrorView::NoSecretsFile)
    } else if options.cmd@.len() == 0 {
        Err(ConfigErrorView::NoCommand)
    } else {
        Ok(())
    }
}

impl Options {
    /// Points the options at the server of an address that was parsed.
    pub fn apply_addr(&mut self, addr: &str, url: &Address) -> (done: Result<(), ConfigError>)
        ensures
            match done {
                Ok(()) => server_at(addr@, url@) is Ok && moved_to(
                    *final(self),
                    *old(self),
                    server_at(addr@, url@)->Ok_0,
                ),
                Err(error) => server_at(addr@, url@) == Err::<ServerView, ConfigErrorView>(error@)
                    && *final(self) == *old(self),
            },
    {
        proof {
            reveal_strlit("http");
            reveal_strlit("https");
            assert("http"@.len() != "https"@.len());
        }
        if !same_text(url.path.as_str(), "/") && !url.path.as_str().is_empty() {
            return Err(
                ConfigError::AddrWithPath { addr: addr.to_owned(), path: url.path.clone() },
            );
        }
        let tls = same_text(url.scheme.as_str(), "https");
        if !tls && !same_text(url.scheme.as_str(), "http") {
            return Err(
                ConfigError::AddrScheme { addr: addr.to_owned(), scheme: url.scheme.clone() },
            );
        }
        self.host = match &url.host {
            Some(host) => host.clone(),
            None => "localhost".to_owned(),
        };
        self.port = match url.port {
            Some(port) => port,
            None => if tls {
                443
            } else {
                80
            },
        };
        self.connect_tls = tls;
        Ok(())
    }

    /// Resolve `VAULT_ADDR` if present, overriding host/port/connect_tls.
    /// Returns an error if the address is malformed or contains a non-empty path.
    pub fn resolve_addr(&mut self) -> (done: Result<(), ConfigError>)
        ensures
            match old(self).addr {
                None => done is Ok && *final(self) == *old(self),
                Some(addr) => match done {
                    Ok(()) => server_of(addr@) is Ok && moved_to(
                        *final(self),
                        *old(self),
                        server_of(addr@)->Ok_0,
                    ),
                    Err(error) => server_of(addr@) == Err::<ServerView, ConfigErrorView>(error@)
                        && *final(self) == *old(self),
                },
            },
            old(self).addr matches Some(addr) ==> forall|tls: bool, host: Seq<char>, port: u16|
                addr@ == #[trigger] address_text(tls, host, port) && plain_host(host)
                    ==> done is Ok && moved_to(
                    *final(self),
                    *old(self),
                    (ServerView { tls, host, port }),
                ),
    {
        proof {
            reveal_strlit("http");
            reveal_strlit("https");
            assert("http"@.len() != "https"@.len());
        }
        let addr = match &self.addr {
            Some(addr) => addr.clone(),
            None => {
                return Ok(());
            },
        };
        match parse_url(addr.as_str()) {
            Ok(url) => self.apply_addr(addr.as_str(), &url),
            Err(reason) => Err(ConfigError::MalformedAddr { addr, reason }),
        }
    }

    /// Resolve the mount path for the auth backend.
    /// Prefers `path`, then defaults to `method`.
    pub fn auth_path(&self) -> (path: String)
        ensures
            path@ == backend_path(*self),
            self.path matches Some(given) ==> path@ == given@,
            self.path is None ==> path@ == self.method@,
    {
        match &self.path {
            Some(path) => path.clone(),
            None => self.method.clone(),
        }
    }

    /// The file with the JWT to log in with, where it stands in one.
    pub fn jwt_file_needed(&self) -> (file: Option<&str>)
        ensures
            match file {
                Some(file) => jwt_from_file(*self) && opt_text(self.jwt_file) == Some(file@),
                None => !jwt_from_file(*self),
            },
            file is Some <==> (self.method@ == "jwt"@ || self.method@ == "kubernetes"@)
                && self.role is Some && self.jwt is None && self.jwt_file is Some,
            file matches Some(file) ==> file@ == self.jwt_file->0@,
    {
        let method = self.method.as_str();
        let takes_jwt = same_text(method, "jwt") || same_text(method, "kubernetes");
        if takes_jwt && self.role.is_some() && self.jwt.is_none() {
            match &self.jwt_file {
                Some(file) => Some(file.as_str()),
                None => None,
            }
        } else {
            None
        }
    }

    /// The JWT that the options give.
    fn jwt_given(&self, jwt_text: Option<&str>) -> (jwt: Option<String>)
        requires
            self.jwt is None && self.jwt_file is Some ==> jwt_text is Some,
        ensures
            opt_text(jwt) == given_jwt(*self, opt_str(jwt_text)),
    {
        match (&self.jwt, &self.jwt_file, jwt_text) {
            (Some(jwt), _, _) => Some(jwt.clone()),
            (None, Some(_), Some(text)) => Some(trim(text)),
            _ => None,
        }
    }

    /// Determine the effective authentication method from `method` and the
    /// corresponding method-specific options.
    ///
    /// `jwt_text` is the text of the file with a JWT, where it is needed.
    pub fn auth_method(&self, jwt_text: Option<&str>) -> (method: AuthMethod)
        requires
            jwt_from_file(*self) ==> jwt_text is Some,
        ensures
            method@ == asked_method(*self, opt_str(jwt_text)),
    {
        let method = self.method.as_str();
        if same_text(method, "token") {
            if let Some(token) = &self.token {
                return AuthMethod::VaultToken { token: token.clone() };
            }
        } else if same_text(method, "github") {
            if let Some(token) = &self.token {
                return AuthMethod::GitHub(token.clone());
            }
        } else if same_text(method, "kubernetes") {
            if let Some(role) = &self.role {
                return match self.jwt_given(jwt_text) {
                    Some(token) => AuthMethod::Jwt { role: role.clone(), token },
                    None => AuthMethod::Kubernetes { role: role.clone() },
                };
            }
        } else if same_text(method, "approle") {
            if let (Some(role_id), Some(secret_id)) = (&self.role_id, &self.secret_id) {
                return AuthMethod::AppRole {
                    role_id: role_id.clone(),
                    secret_id: secret_id.clone(),
                };
            }
        } else if same_text(method, "ldap") {
            if let (Some(username), Some(password)) = (&self.username, &self.password) {
                return AuthMethod::Ldap {
                    username: username.clone(),
                    password: password.clone(),
                };
            }
        } else if same_text(method, "okta") {
            if let (Some(username), Some(password)) = (&self.username, &self.password) {
                return AuthMethod::Okta {
                    username: username.clone(),
                    password: password.clone(),
                };
            }
        } else if same_text(method, "azure") {
            if let Some(role) = &self.role {
                return AuthMethod::Azure { role: role.clone(), resource: self.resource.clone() };
            }
        } else if same_text(method, "gcp") {
            if let Some(role) = &self.role {
                return AuthMethod::Gcp { role: role.clone() };
            }
        } else if same_text(method, "aws") {
            if let Some(role) = &self.role {
                return AuthMethod::AwsEc2 {
                    role: role.clone(),
                    signature_type: self.aws_signature_type.0,
                };
            }
        } else if same_text(method, "jwt") {
            if let Some(role) = &self.role {
                if let Some(token) = self.jwt_given(jwt_text) {
                    return AuthMethod::Jwt { role: role.clone(), token };
                }
            }
        }
        AuthMethod::Unauthenticated
    }

    /// Validate that all required fields are present.
    pub fn validate(&self) -> (done: Result<(), ConfigError>)
        ensures
            match done {
                Ok(()) => checked(*self) is Ok,
                Err(error) => checked(*self) == Err::<(), ConfigErrorView>(error@),
            },
            done is Ok <==> self.secrets_file@.len() > 0 && self.cmd@.len() > 0,
            done matches Err(error) ==> if self.secrets_file@.len() == 0 {
                error is NoSecretsFile
            } else {
                error is NoCommand
            },
    {
        if self.secrets_file.as_str().is_empty() {
            return Err(ConfigError::NoSecretsFile);
        }
        if self.cmd.as_str().is_empty() {
            return Err(ConfigError::NoCommand);
        }
        Ok(())
    }

    /// Takes the token that a file holds, unless one was given.
    pub fn fall_back_to(&mut self, token: Option<String>)
        ensures
            *final(self) == (Options {
                token: match old(self).token {
                    Some(given) => Some(given),
                    None => token,
                },
                ..*old(self)
            }),
    {
        if self.token.is_none() {
            self.token = token;
        }
    }
}

/// Where the first equals sign at or after `from` stands, or where the line
/// ends.
pub open spec fn equals_from(line: Seq<char>, from: int) -> int
    decreases line.len() - from,
{
    if 0 <= from < line.len() && line[from] != '=' {
        equals_from(line, from + 1)
    } else {
        from
    }
}

/// The key and the value that a line of an environment file gives. Blank lines,
/// comments and lines without an equals sign give none.
pub open spec fn env_entry(line: Seq<char>) -> Option<(Seq<char>, Seq<char>)> {
    let line = trimmed(line);
    let mark = equals_from(line, 0);
    if line.len() == 0 || line[0] == '#' || mark >= line.len() {
        None
    } else {
        Some((trimmed(line.take(mark)), trimmed(line.skip(mark + 1))))
    }
}

/// The keys and values of the lines of an environment file from `from` on.
pub open spec fn env_entries(text: Seq<char>, from: int) -> Seq<(Seq<char>, Seq<char>)>
    decreases text.len() - from,
{
    let end = run_end(text, from, CharClass::InLine);
    let rest = if 0 <= from <= end < text.len() {
        env_entries(text, end + 1)
    } else {
        Seq::empty()
    };
    match env_entry(line_from(text, from)) {
        Some(entry) => seq![entry] + rest,
        None => rest,
    }
}

/// The first equals sign is found where it stands.
proof fn lemma_equals_at(line: Seq<char>, from: int, at: int)
    requires
        0 <= from <= at < line.len(),
        line[at] == '=',
        forall|i: int| from <= i < at ==> #[trigger] line[i] != '=',
    ensures
        equals_from(line, from) == at,
    decreases at - from,
{
    if from < at {
        lemma_equals_at(line, from + 1, at);
    }
}

/// A `KEY=value` line gives the key and the value that were written. The key is
/// not empty, holds no equals sign and does not start a comment; and neither
/// the key nor the value has white space at its ends.
pub proof fn law_env_line_is_read(key: Seq<char>, value: Seq<char>)
    requires
        key.len() > 0,
        key[0] != '#',
        !key.contains('='),
        !white_space(key[0]) && !white_space(key.last()),
        value.len() > 0 ==> !white_space(value[0]) && !white_space(value.last()),
    ensures
        env_entry(key + seq!['='] + value) == Some((key, value)),
{
    let line = key + seq!['='] + value;
    let mark = key.len() as int;
    assert(line[mark] == '=');
    assert(line[0] == key[0]);
    assert(line.last() == (if value.len() > 0 {
        value.last()
    } else {
        '='
    }));
    law_trimmed_already(line);
    assert forall|i: int| 0 <= i < mark implies #[trigger] line[i] != '=' by {
        assert(line[i] == key[i]);
        assert(key.contains(key[i]));
    }
    lemma_equals_at(line, 0, mark);
    assert(line.take(mark) =~= key);
    assert(line.skip(mark + 1) =~= value);
    law_trimmed_already(key);
    law_trimmed_already(value);
}

/// A line gives the key before its first equals sign and the value behind it, each
/// without the white space around it, unless it is a comment.
pub proof fn law_env_line(
    before: Seq<char>,
    key: Seq<char>,
    mid: Seq<char>,
    inner: Seq<char>,
    value: Seq<char>,
    after: Seq<char>,
)
    requires
        forall|i: int| 0 <= i < before.len() ==> white_space(#[trigger] before[i]),
        forall|i: int| 0 <= i < mid.len() ==> white_space(#[trigger] mid[i]),
        forall|i: int| 0 <= i < inner.len() ==> white_space(#[trigger] inner[i]),
        forall|i: int| 0 <= i < after.len() ==> white_space(#[trigger] after[i]),
        !key.contains('='),
        key.len() > 0 ==> key[0] != '#' && !white_space(key[0]) && !white_space(key.last()),
        key.len() == 0 ==> mid.len() == 0,
        value.len() > 0 ==> !white_space(value[0]) && !white_space(value.last()),
        value.len() == 0 ==> inner.len() == 0,
    ensures
        env_entry(before + key + mid + seq!['='] + inner + value + after) == Some((key, value)),
{
    let none = Seq::<char>::empty();
    let core = key + mid + seq!['='] + inner + value;
    let mark: int = key.len() as int + mid.len();
    assert(before + key + mid + seq!['='] + inner + value + after =~= before + core + after);
    assert(core[mark] == '=');
    assert(core[0] == (if key.len() > 0 {
        key[0]
    } else {
        '='
    }));
    assert(core.last() == (if value.len() > 0 {
        value.last()
    } else {
        '='
    }));
    law_trimmed_between(before, core, after);
    assert forall|i: int| 0 <= i < mark implies #[trigger] core[i] != '=' by {
        if i < key.len() {
            assert(core[i] == key[i]);
            assert(key.contains(key[i]));
        } else {
            assert(core[i] == mid[i - key.len()]);
        }
    }
    lemma_equals_at(core, 0, mark);
    assert(core.take(mark) =~= none + key + mid);
    assert(core.skip(mark + 1) =~= inner + value + none);
    law_trimmed_between(none, key, mid);
    law_trimmed_between(inner, value, none);
}

/// A line without an equals sign gives nothing, and neither does a blank line.
pub proof fn law_env_line_without_setting(line: Seq<char>)
    requires
        !line.contains('=') || forall|i: int|
            0 <= i < line.len() ==> white_space(#[trigger] line[i]),
    ensures
        env_entry(line) is None,
{
    law_trimmed(line);
    let (start, end) = choose|start: int, end: int| #[trigger] trims_to(line, start, end);
    let core = trimmed(line);
    let mark = equals_from(core, 0);
    lemma_equals_from(core, 0);
    if mark < core.len() {
        assert(core[mark] == line[start + mark]);
        assert(line.contains(line[start + mark]));
    }
}

/// The first equals sign is one.
proof fn lemma_equals_from(line: Seq<char>, from: int)
    requires
        0 <= from <= line.len(),
    ensures
        from <= equals_from(line, from) <= line.len(),
        equals_from(line, from) < line.len() ==> line[equals_from(line, from)] == '=',
    decreases line.len() - from,
{
    if from < line.len() && line[from] != '=' {
        lemma_equals_from(line, from + 1);
    }
}

/// What stands before lines does not matter to what they give.
proof fn lemma_entries_shift(head: Seq<char>, tail: Seq<char>, from: int)
    requires
        0 <= from <= tail.len(),
    ensures
        env_entries(head + tail, head.len() + from) == env_entries(tail, from),
    decreases tail.len() - from,
{
    let end = run_end(tail, from, CharClass::InLine);
    lemma_run_shift(head, tail, from, CharClass::InLine);
    lemma_run_end_bounds(tail, from, CharClass::InLine);
    assert(line_from(head + tail, head.len() + from) =~= line_from(tail, from));
    if end < tail.len() {
        lemma_entries_shift(head, tail, end + 1);
    }
}

/// An environment file gives what its lines give, one behind the other.
pub proof fn law_env_file_is_read_line_by_line(line: Seq<char>, rest: Seq<char>)
    requires
        !line.contains('\n'),
    ensures
        env_entry(line) matches Some(entry) ==> env_entries(line + seq!['\n'] + rest, 0) == seq![
            entry,
        ] + env_entries(rest, 0) && env_entries(line, 0) == seq![entry],
        env_entry(line) is None ==> env_entries(line + seq!['\n'] + rest, 0) == env_entries(
            rest,
            0,
        ) && env_entries(line, 0).len() == 0,
{
    lemma_first_line(line, rest);
    lemma_entries_shift(line + seq!['\n'], rest, 0);
    assert forall|i: int| 0 <= i < line.len() implies CharClass::InLine.holds(
        #[trigger] line[i],
    ) by {
        assert(line.contains(line[i]));
    }
    lemma_run_to(line, 0, line.len() as int, CharClass::InLine);
    assert(line_from(line, 0) =~= line);
    if let Some(entry) = env_entry(line) {
        assert(env_entries(line, 0) =~= seq![entry]);
    }
}

/// A comment gives nothing.
pub proof fn law_env_comment(line: Seq<char>)
    requires
        trimmed(line).len() > 0,
        trimmed(line)[0] == '#',
    ensures
        env_entry(line) is None,
{
}

/// The keys and values of each environment file that could be read.
pub open spec fn env_files(texts: Seq<Option<String>>) -> Seq<Seq<(Seq<char>, Seq<char>)>>
    decreases texts.len(),
{
    if texts.len() == 0 {
        Seq::empty()
    } else {
        match texts.last() {
            Some(text) => env_files(texts.drop_last()).push(env_entries(text@, 0)),
            None => env_files(texts.drop_last()),
        }
    }
}

/// Each file that could be read gives what its text gives, in order; one that could not
/// be read gives nothing.
pub proof fn law_env_files(texts: Seq<Option<String>>, text: String)
    ensures
        env_files(texts.push(Some(text))) == env_files(texts).push(env_entries(text@, 0)),
        env_files(texts.push(None)) == env_files(texts),
        env_files(Seq::empty()).len() == 0,
{
    assert(texts.push(Some(text)).drop_last() =~= texts);
    assert(texts.push(None).drop_last() =~= texts);
}

/// The models of the keys and values of files.
pub open spec fn file_views(files: Seq<Vec<(String, String)>>) -> Seq<
    Seq<(Seq<char>, Seq<char>)>,
> {
    files.map_values(|file: Vec<(String, String)>| pair_views(file@))
}

/// Reads [`env_entry`].
fn read_env_entry(line: &str) -> (entry: Option<(String, String)>)
    ensures
        match entry {
            Some((key, value)) => env_entry(line@) == Some((key@, value@)),
            None => env_entry(line@) is None,
        },
{
    let line = trim(line);
    let chars = chars_of(line.as_str());
    if chars.len() == 0 || chars[0] == '#' {
        return None;
    }
    let mut mark: usize = 0;
    while mark < chars.len() && chars[mark] != '='
        invariant
            mark <= chars@.len(),
            equals_from(chars@, 0) == equals_from(chars@, mark as int),
        decreases chars@.len() - mark,
    {
        mark = mark + 1;
    }
    if mark >= chars.len() {
        return None;
    }
    let key = string_of(&chars, 0, mark);
    assert(key@ =~= chars@.take(mark as int));
    Some((trim(key.as_str()), trim_from(&chars, mark + 1)))
}

/// The keys and values of an environment file.
///
/// A file holds `KEY=value` lines and `#` comments. White space around keys and
/// values does not count.
pub fn read_env_file(text: &str) -> (entries: Vec<(String, String)>)
    ensures
        pair_views(entries@) == env_entries(text@, 0),
{
    let chars = chars_of(text);
    let ghost whole = env_entries(chars@, 0);
    let mut entries: Vec<(String, String)> = Vec::new();
    let mut at: usize = 0;
    assert(pair_views(entries@) + whole =~= whole);
    loop
        invariant
            at <= chars@.len(),
            chars@ == text@,
            whole == env_entries(chars@, 0),
            whole == pair_views(entries@) + env_entries(chars@, at as int),
        decreases chars@.len() - at,
    {
        let mut end: usize = at;
        while end < chars.len() && chars[end] != '\n'
            invariant
                at <= end <= chars@.len(),
                run_end(chars@, at as int, CharClass::InLine) == run_end(
                    chars@,
                    end as int,
                    CharClass::InLine,
                ),
            decreases chars@.len() - end,
        {
            end = end + 1;
        }
        let line = string_of(&chars, at, end);
        let ghost before = entries@;
        if let Some(entry) = read_env_entry(line.as_str()) {
            entries.push(entry);
            proof {
                let rest = if end < chars@.len() {
                    env_entries(chars@, end + 1)
                } else {
                    Seq::empty()
                };
                assert(pair_views(entries@) =~= pair_views(before).push((entry.0@, entry.1@)));
                assert(pair_views(before) + (seq![(entry.0@, entry.1@)] + rest) =~= pair_views(
                    entries@,
                ) + rest);
            }
        }
        if end >= chars.len() {
            assert(whole =~= pair_views(entries@));
            return entries;
        }
        at = end + 1;
    }
}

/// The keys and values of the environment files in standard locations, per
/// file. `texts` are the texts of the files in order, where they could be read.
pub fn read_env_files(texts: Vec<Option<String>>) -> (files: Vec<Vec<(String, String)>>)
    ensures
        file_views(files@) == env_files(texts@),
{
    let mut files: Vec<Vec<(String, String)>> = Vec::new();
    let mut i: usize = 0;
    assert(file_views(files@) =~= env_files(texts@.take(0)));
    while i < texts.len()
        invariant
            i <= texts@.len(),
            file_views(files@) == env_files(texts@.take(i as int)),
        decreases texts@.len() - i,
    {
        let ghost before = files@;
        assert(texts@.take(i + 1).drop_last() =~= texts@.take(i as int));
        if let Some(text) = &texts[i] {
            let file = read_env_file(text.as_str());
            files.push(file);
            assert(file_views(files@) =~= file_views(before).push(pair_views(file@)));
        }
        i = i + 1;
    }
    assert(texts@.take(i as int) =~= texts@);
    files
}

/// Whether a variable can be set: its name is neither empty nor holds an equals
/// sign, and neither the name nor the value holds a NUL character.
pub open spec fn settable(var: VarView) -> bool {
    &&& var.0.len() > 0
    &&& !var.0.contains('=')
    &&& !var.0.contains('\0')
    &&& !var.1.contains('\0')
}

/// The variables that can be set.
pub open spec fn settable_vars(vars: Seq<VarView>) -> Seq<VarView>
    decreases vars.len(),
{
    if vars.len() == 0 {
        Seq::empty()
    } else if settable(vars.last()) {
        settable_vars(vars.drop_last()).push(vars.last())
    } else {
        settable_vars(vars.drop_last())
    }
}

/// What environment files set beside the variables that are given: a given
/// variable prevails over the files, and a later file over an earlier one. What
/// cannot be set is left out.
pub open spec fn settings(
    files: Seq<Seq<(Seq<char>, Seq<char>)>>,
    given: Seq<Seq<char>>,
) -> Seq<VarView> {
    last_wins(settable_vars(kept_vars(files.flatten(), given)))
}

/// Whether a text holds a character.
fn holds_char(text: &str, c: char) -> (found: bool)
    ensures
        found == text@.contains(c),
{
    let chars = chars_of(text);
    let mut i: usize = 0;
    while i < chars.len()
        invariant
            i <= chars@.len(),
            chars@ == text@,
            forall|k: int| 0 <= k < i ==> chars@[k] != c,
        decreases chars@.len() - i,
    {
        if chars[i] == c {
            return true;
        }
        i = i + 1;
    }
    false
}

/// Decides [`settable`].
fn is_settable(name: &str, value: &str) -> (found: bool)
    ensures
        found == settable((name@, value@)),
{
    !name.is_empty() && !holds_char(name, '=') && !holds_char(name, '\0') && !holds_char(
        value,
        '\0',
    )
}

/// What environment files set. `files` are their keys and values in order, and
/// `given` the names of the variables that the environment gives.
pub fn file_settings(files: &Vec<Vec<(String, String)>>, given: &Vec<String>) -> (vars: Vec<
    (String, String),
>)
    ensures
        pair_views(vars@) == settings(file_views(files@), text_views(given@)),
{
    let ghost read = file_views(files@);
    let mut all: Vec<(String, String)> = Vec::new();
    let mut i: usize = 0;
    assert(pair_views(all@) =~= read.take(0).flatten());
    while i < files.len()
        invariant
            i <= files@.len(),
            read == file_views(files@),
            pair_views(all@) == read.take(i as int).flatten(),
        decreases files@.len() - i,
    {
        proof {
            read.take(i as int).lemma_flatten_push(read[i as int]);
            assert(read.take(i + 1) =~= read.take(i as int).push(read[i as int]));
        }
        all = append_vars(all, &files[i]);
        i = i + 1;
    }
    assert(read.take(i as int) =~= read);
    let unset = unlisted_vars(&all, given);
    let ghost open = pair_views(unset@);
    let mut vars: Vec<(String, String)> = Vec::new();
    let mut k: usize = 0;
    assert(pair_views(vars@) =~= settable_vars(open.take(0)));
    while k < unset.len()
        invariant
            k <= unset@.len(),
            open == pair_views(unset@),
            pair_views(vars@) == settable_vars(open.take(k as int)),
        decreases unset@.len() - k,
    {
        let ghost before = pair_views(vars@);
        if is_settable(unset[k].0.as_str(), unset[k].1.as_str()) {
            vars.push((unset[k].0.clone(), unset[k].1.clone()));
            assert(pair_views(vars@) =~= before.push(open[k as int]));
        }
        k = k + 1;
        assert(open.take(k as int).drop_last() =~= open.take(k - 1));
    }
    assert(open.take(k as int) =~= open);
    merge_vars(vars)
}

/// Files set each name once, and none that the environment gives.
pub proof fn law_given_variables_prevail(
    files: Seq<Seq<(Seq<char>, Seq<char>)>>,
    given: Seq<Seq<char>>,
    name: Seq<char>,
)
    ensures
        distinct_names(settings(files, given)),
        given.contains(name) ==> !has_name(settings(files, given), name),
{
    let kept = kept_vars(files.flatten(), given);
    let vars = settable_vars(kept);
    law_deduplicated_names(vars);
    if given.contains(name) {
        lemma_kept_names(files.flatten(), given, name);
        lemma_settable_names(kept, name);
        law_last_wins_values(vars);
        lemma_vars_map_names(vars, name);
        lemma_vars_map_names(last_wins(vars), name);
    }
}

/// Whether files set a variable beside the given ones: it is not given, has a name
/// without an equals sign, and no NUL character anywhere.
pub open spec fn may_be_set(var: VarView, given: Seq<Seq<char>>) -> bool {
    &&& !given.contains(var.0)
    &&& var.0.len() > 0
    &&& forall|i: int| 0 <= i < var.0.len() ==> #[trigger] var.0[i] != '=' && var.0[i] != '\0'
    &&& forall|i: int| 0 <= i < var.1.len() ==> #[trigger] var.1[i] != '\0'
}

/// A variable may be set if it is not given and can be set.
proof fn lemma_may_be_set(var: VarView, given: Seq<Seq<char>>)
    ensures
        may_be_set(var, given) <==> !given.contains(var.0) && settable(var),
{
    if settable(var) {
        assert forall|i: int| 0 <= i < var.0.len() implies #[trigger] var.0[i] != '='
            && var.0[i] != '\0' by {
            assert(var.0.contains(var.0[i]));
        }
        assert forall|i: int| 0 <= i < var.1.len() implies #[trigger] var.1[i] != '\0' by {
            assert(var.1.contains(var.1[i]));
        }
    }
}

/// One more variable is left if and only if it may be set.
proof fn lemma_left_of(all: Seq<VarView>, given: Seq<Seq<char>>)
    requires
        all.len() > 0,
    ensures
        settable_vars(kept_vars(all, given)) == (if may_be_set(all.last(), given) {
            settable_vars(kept_vars(all.drop_last(), given)).push(all.last())
        } else {
            settable_vars(kept_vars(all.drop_last(), given))
        }),
{
    lemma_may_be_set(all.last(), given);
    let kept = kept_vars(all.drop_last(), given);
    if !given.contains(all.last().0) {
        assert(kept.push(all.last()).drop_last() =~= kept);
    }
}

/// The last variable of a name that may be set is the last of that name that is left.
proof fn lemma_last_left(all: Seq<VarView>, given: Seq<Seq<char>>, at: int) -> (place: int)
    requires
        0 <= at < all.len(),
        may_be_set(all[at], given),
        forall|i: int|
            at < i < all.len() && may_be_set(#[trigger] all[i], given) ==> all[i].0 != all[at].0,
    ensures
        ({
            let left = settable_vars(kept_vars(all, given));
            &&& 0 <= place < left.len()
            &&& left[place] == all[at]
            &&& forall|i: int| place < i < left.len() ==> (#[trigger] left[i]).0 != all[at].0
        }),
    decreases all.len(),
{
    let rest = all.drop_last();
    lemma_left_of(all, given);
    let left = settable_vars(kept_vars(all, given));
    if at == all.len() - 1 {
        left.len() - 1
    } else {
        assert forall|i: int|
            at < i < rest.len() && may_be_set(#[trigger] rest[i], given) implies rest[i].0
            != rest[at].0 by {
            assert(all[i] == rest[i]);
        }
        let place = lemma_last_left(rest, given, at);
        let before = settable_vars(kept_vars(rest, given));
        assert(all[all.len() - 1] == all.last());
        let name = all[at].0;
        assert forall|i: int| place < i < left.len() implies (#[trigger] left[i]).0 != name by {
            if i < before.len() {
                assert(before[i] == left[i]);
            }
        }
        place
    }
}

/// What is left was there, and may be set.
proof fn lemma_left_from(all: Seq<VarView>, given: Seq<Seq<char>>, var: VarView)
    requires
        settable_vars(kept_vars(all, given)).contains(var),
    ensures
        all.contains(var),
        may_be_set(var, given),
    decreases all.len(),
{
    let left = settable_vars(kept_vars(all, given));
    if all.len() > 0 {
        let rest = all.drop_last();
        lemma_left_of(all, given);
        assert(all[all.len() - 1] == all.last());
        let before = settable_vars(kept_vars(rest, given));
        if !(may_be_set(all.last(), given) && var == all.last()) {
            let i = choose|i: int| 0 <= i < left.len() && left[i] == var;
            assert(before[i] == var);
            lemma_left_from(rest, given, var);
            let k = choose|k: int| 0 <= k < rest.len() && rest[k] == var;
            assert(all[k] == var);
        }
    }
}

/// Environment files set every variable that they hold, that is not given and that can
/// be set, to the value that it has last; and they set nothing else.
pub proof fn law_file_settings(
    files: Seq<Seq<(Seq<char>, Seq<char>)>>,
    given: Seq<Seq<char>>,
    at: int,
)
    requires
        0 <= at < files.flatten().len(),
        may_be_set(files.flatten()[at], given),
        forall|i: int|
            at < i < files.flatten().len() && may_be_set(#[trigger] files.flatten()[i], given)
                ==> files.flatten()[i].0 != files.flatten()[at].0,
    ensures
        settings(files, given).contains(files.flatten()[at]),
{
    let all = files.flatten();
    let left = settable_vars(kept_vars(all, given));
    let place = lemma_last_left(all, given, at);
    let name = left[place].0;
    assert forall|i: int| place < i < left.len() implies (#[trigger] left[i]).0 != name by {
        assert(left[i].0 != all[at].0);
    }
    law_overwriting_keeps_the_last(left, place);
}

/// Whatever environment files set, one of them holds it, it is not given, and it can be
/// set.
pub proof fn law_file_settings_come_from_files(
    files: Seq<Seq<(Seq<char>, Seq<char>)>>,
    given: Seq<Seq<char>>,
    at: int,
)
    requires
        0 <= at < settings(files, given).len(),
    ensures
        files.flatten().contains(settings(files, given)[at]),
        may_be_set(settings(files, given)[at], given),
{
    let all = files.flatten();
    let left = settable_vars(kept_vars(all, given));
    let set = settings(files, given);
    assert(set.contains(set[at]));
    lemma_last_wins_from(left, set[at]);
    lemma_left_from(all, given, set[at]);
}

/// No kept name is on the blacklist.
proof fn lemma_kept_names(vars: Seq<VarView>, blacklist: Seq<Seq<char>>, name: Seq<char>)
    requires
        blacklist.contains(name),
    ensures
        !has_name(kept_vars(vars, blacklist), name),
    decreases vars.len(),
{
    if vars.len() > 0 {
        lemma_kept_names(vars.drop_last(), blacklist, name);
        let rest = kept_vars(vars.drop_last(), blacklist);
        let kept = kept_vars(vars, blacklist);
        if has_name(kept, name) {
            let i = choose|i: int| 0 <= i < kept.len() && (#[trigger] kept[i]).0 == name;
            if i < rest.len() {
                assert(rest[i].0 == name);
            }
        }
    }
}

/// What can be set of variables has no other names than they have.
proof fn lemma_settable_names(vars: Seq<VarView>, name: Seq<char>)
    requires
        !has_name(vars, name),
    ensures
        !has_name(settable_vars(vars), name),
    decreases vars.len(),
{
    if vars.len() > 0 {
        let head = vars.drop_last();
        assert forall|i: int| 0 <= i < head.len() implies (#[trigger] head[i]).0 != name by {
            assert(vars[i].0 != name);
        }
        lemma_settable_names(head, name);
        let rest = settable_vars(head);
        let left = settable_vars(vars);
        if has_name(left, name) {
            let i = choose|i: int| 0 <= i < left.len() && (#[trigger] left[i]).0 == name;
            if i < rest.len() {
                assert(rest[i].0 == name);
            } else {
                assert(vars[vars.len() - 1].0 == name);
            }
        }
    }
}

} // verus!
