//! Vault API error variants.

use vstd::prelude::*;
use vstd::string::*;

use crate::text::{numeral, write_numeral};

verus! {

/// Errors that can occur during Vault interaction.
#[derive(Debug, Clone, PartialEq, Eq)]
pub enum VaultError {
    SecretNotFound(String),
    KeyNotFound { path: String },
    WrongType { path: String },
    BadRequest(String),
    Forbidden,
    BadJson { body: String, msg: String },
    ServerError(String),
    ServerUnavailable(String),
    ServerUnreachable(String),
    InvalidUrl(String),
    DuplicateVar(String),
    Unspecified { status: u16, body: String },
    KubernetesJwtFailed(String),
    KubernetesJwtInvalidUtf8,
    CloudMetadataFailed(String),
}

/// The model of a [`VaultError`].
pub enum VaultErrorView {
    SecretNotFound(Seq<char>),
    KeyNotFound { path: Seq<char> },
    WrongType { path: Seq<char> },
    BadRequest(Seq<char>),
    Forbidden,
    BadJson { body: Seq<char>, msg: Seq<char> },
    ServerError(Seq<char>),
    ServerUnavailable(Seq<char>),
    ServerUnreachable(Seq<char>),
    InvalidUrl(Seq<char>),
    DuplicateVar(Seq<char>),
    Unspecified { status: u16, body: Seq<char> },
    KubernetesJwtFailed(Seq<char>),
    KubernetesJwtInvalidUtf8,
    CloudMetadataFailed(Seq<char>),
}

impl View for VaultError {
    type V = VaultErrorView;

    open spec fn view(&self) -> VaultErrorView {
        match *self {
            VaultError::SecretNotFound(path) => VaultErrorView::SecretNotFound(path@),
            VaultError::KeyNotFound { path } => VaultErrorView::KeyNotFound { path: path@ },
            VaultError::WrongType { path } => VaultErrorView::WrongType { path: path@ },
            VaultError::BadRequest(body) => VaultErrorView::BadRequest(body@),
            VaultError::Forbidden => VaultErrorView::Forbidden,
            VaultError::BadJson { body, msg } => VaultErrorView::BadJson {
                body: body@,
                msg: msg@,
            },
            VaultError::ServerError(body) => VaultErrorView::ServerError(body@),
            VaultError::ServerUnavailable(body) => VaultErrorView::ServerUnavailable(body@),
            VaultError::ServerUnreachable(reason) => VaultErrorView::ServerUnreachable(reason@),
            VaultError::InvalidUrl(reason) => VaultErrorView::InvalidUrl(reason@),
            VaultError::DuplicateVar(name) => VaultErrorView::DuplicateVar(name@),
            VaultError::Unspecified { status, body } => VaultErrorView::Unspecified {
                status,
                body: body@,
            },
            VaultError::KubernetesJwtFailed(reason) => VaultErrorView::KubernetesJwtFailed(
                reason@,
            ),
            VaultError::KubernetesJwtInvalidUtf8 => VaultErrorView::KubernetesJwtInvalidUtf8,
            VaultError::CloudMetadataFailed(reason) => VaultErrorView::CloudMetadataFailed(
                reason@,
            ),
        }
    }
}

/// An error is modelled by what it is about.
pub proof fn law_error_view(error: VaultError)
    ensures
        match error {
            VaultError::SecretNotFound(path) => error@ == VaultErrorView::SecretNotFound(path@),
            VaultError::KeyNotFound { path } => error@ == (VaultErrorView::KeyNotFound {
                path: path@,
            }),
            VaultError::WrongType { path } => error@ == (VaultErrorView::WrongType { path: path@ }),
            VaultError::BadRequest(body) => error@ == VaultErrorView::BadRequest(body@),
            VaultError::Forbidden => error@ == VaultErrorView::Forbidden,
            VaultError::BadJson { body, msg } => error@ == (VaultErrorView::BadJson {
                body: body@,
                msg: msg@,
            }),
            VaultError::ServerError(body) => error@ == VaultErrorView::ServerError(body@),
            VaultError::ServerUnavailable(body) => error@ == VaultErrorView::ServerUnavailable(
                body@,
            ),
            VaultError::ServerUnreachable(reason) => error@ == VaultErrorView::ServerUnreachable(
                reason@,
            ),
            VaultError::InvalidUrl(reason) => error@ == VaultErrorView::InvalidUrl(reason@),
            VaultError::DuplicateVar(name) => error@ == VaultErrorView::DuplicateVar(name@),
            VaultError::Unspecified { status, body } => error@ == (VaultErrorView::Unspecified {
                status,
                body: body@,
            }),
            VaultError::KubernetesJwtFailed(reason) => error@
                == VaultErrorView::KubernetesJwtFailed(reason@),
            VaultError::KubernetesJwtInvalidUtf8 => error@
                == VaultErrorView::KubernetesJwtInvalidUtf8,
            VaultError::CloudMetadataFailed(reason) => error@
                == VaultErrorView::CloudMetadataFailed(reason@),
        },
{
}

impl VaultErrorView {
    /// Whether a request that failed so is tried again.
    pub open spec fn retryable(self) -> bool {
        ||| self is ServerError
        ||| self is ServerUnavailable
        ||| self is ServerUnreachable
        ||| self is Unspecified
        ||| self is BadJson
    }

    /// What the error says.
    pub open spec fn said(self) -> Seq<char> {
        match self {
            VaultErrorView::SecretNotFound(path) => "secret not found: "@ + path,
            VaultErrorView::KeyNotFound { path } => "key not found for secret "@ + quoted(path),
            VaultErrorView::WrongType { path } => "key is not a string for secret "@ + quoted(
                path,
            ),
            VaultErrorView::BadRequest(body) => "bad request: "@ + body,
            VaultErrorView::Forbidden => "forbidden: the provided token is invalid or expired"@,
            VaultErrorView::BadJson { body, msg } => "received bad JSON from Vault: "@ + msg
                + ". Response was: "@ + body,
            VaultErrorView::ServerError(body) => "internal Vault error: "@ + body,
            VaultErrorView::ServerUnavailable(body) => "Vault is unavailable: "@ + body,
            VaultErrorView::ServerUnreachable(reason) => "server unreachable: "@ + reason,
            VaultErrorView::InvalidUrl(reason) => "invalid URL: "@ + reason,
            VaultErrorView::DuplicateVar(name) => "duplicate environment variable: "@ + name,
            VaultErrorView::Unspecified { status, body } => "unknown error (status "@ + numeral(
                status as nat,
                10,
            ) + "): "@ + body,
            VaultErrorView::KubernetesJwtFailed(reason) => "failed to read Kubernetes JWT: "@
                + reason,
            VaultErrorView::KubernetesJwtInvalidUtf8 => "Kubernetes JWT is not valid UTF-8"@,
            VaultErrorView::CloudMetadataFailed(reason) => "cloud metadata fetch failed: "@
                + reason,
        }
    }
}

/// A request is tried again if and only if the server had trouble, could not be
/// reached, gave an answer that is not known, or one that could not be read.
pub proof fn law_retryable(error: VaultErrorView)
    ensures
        match error {
            VaultErrorView::ServerError(_) => error.retryable(),
            VaultErrorView::ServerUnavailable(_) => error.retryable(),
            VaultErrorView::ServerUnreachable(_) => error.retryable(),
            VaultErrorView::Unspecified { .. } => error.retryable(),
            VaultErrorView::BadJson { .. } => error.retryable(),
            _ => !error.retryable(),
        },
{
}

/// What the errors say: each its own words, and behind them what it is about.
pub proof fn law_errors_say_what_is_wrong(text: Seq<char>, msg: Seq<char>, status: u16)
    ensures
        VaultErrorView::SecretNotFound(text).said() == "secret not found: "@ + text,
        (VaultErrorView::KeyNotFound { path: text }).said() == "key not found for secret "@
            + quoted(text),
        (VaultErrorView::WrongType { path: text }).said() == "key is not a string for secret "@
            + quoted(text),
        VaultErrorView::BadRequest(text).said() == "bad request: "@ + text,
        VaultErrorView::Forbidden.said() == "forbidden: the provided token is invalid or expired"@,
        (VaultErrorView::BadJson { body: text, msg }).said() == "received bad JSON from Vault: "@
            + msg + ". Response was: "@ + text,
        VaultErrorView::ServerError(text).said() == "internal Vault error: "@ + text,
        VaultErrorView::ServerUnavailable(text).said() == "Vault is unavailable: "@ + text,
        VaultErrorView::ServerUnreachable(text).said() == "server unreachable: "@ + text,
        VaultErrorView::InvalidUrl(text).said() == "invalid URL: "@ + text,
        VaultErrorView::DuplicateVar(text).said() == "duplicate environment variable: "@ + text,
        (VaultErrorView::Unspecified { status, body: text }).said() == "unknown error (status "@
            + numeral(status as nat, 10) + "): "@ + text,
        VaultErrorView::KubernetesJwtFailed(text).said() == "failed to read Kubernetes JWT: "@
            + text,
        VaultErrorView::KubernetesJwtInvalidUtf8.said() == "Kubernetes JWT is not valid UTF-8"@,
        VaultErrorView::CloudMetadataFailed(text).said() == "cloud metadata fetch failed: "@ + text,
{
}

/// What formatting a string with `{:?}` writes.
pub uninterp spec fn quoted(s: Seq<char>) -> Seq<char>;

/// Printable ASCII text that needs no escaping between quotes.
pub open spec fn plain(s: Seq<char>) -> bool {
    forall|i: int| 0 <= i < s.len() ==> ' ' <= #[trigger] s[i] <= '~' && s[i] != '"' && s[i]
        != '\\' && s[i] != '\''
}

/// `<str as Debug>::fmt`: the string between quotes, with what needs it
/// escaped. Plain text is written as it is.
#[verifier::external_body]
fn quote(s: &str) -> (res: String)
    ensures
        res@ == quoted(s@),
        plain(s@) ==> res@ == "\""@ + s@ + "\""@,
{
    format!("{:?}", s)
}

/// Retryable Vault errors (should trigger a retry attempt).
pub fn is_retryable(err: &VaultError) -> (retry: bool)
    ensures
        retry == err@.retryable(),
{
    match err {
        VaultError::ServerError(_) => true,
        VaultError::ServerUnavailable(_) => true,
        VaultError::ServerUnreachable(_) => true,
        VaultError::Unspecified { .. } => true,
        VaultError::BadJson { .. } => true,
        _ => false,
    }
}

impl VaultError {
    /// What the error says.
    pub fn message(&self) -> (message: String)
        ensures
            message@ == self@.said(),
    {
        let mut message = String::new();
        match self {
            VaultError::SecretNotFound(path) => {
                message.append("secret not found: ");
                message.append(path.as_str());
            },
            VaultError::KeyNotFound { path } => {
                message.append("key not found for secret ");
                message.append(quote(path.as_str()).as_str());
            },
            VaultError::WrongType { path } => {
                message.append("key is not a string for secret ");
                message.append(quote(path.as_str()).as_str());
            },
            VaultError::BadRequest(body) => {
                message.append("bad request: ");
                message.append(body.as_str());
            },
            VaultError::Forbidden => {
                message.append("forbidden: the provided token is invalid or expired");
            },
            VaultError::BadJson { body, msg } => {
                message.append("received bad JSON from Vault: ");
                message.append(msg.as_str());
                message.append(". Response was: ");
                message.append(body.as_str());
            },
            VaultError::ServerError(body) => {
                message.append("internal Vault error: ");
                message.append(body.as_str());
            },
            VaultError::ServerUnavailable(body) => {
                message.append("Vault is unavailable: ");
                message.append(body.as_str());
            },
            VaultError::ServerUnreachable(reason) => {
                message.append("server unreachable: ");
                message.append(reason.as_str());
            },
            VaultError::InvalidUrl(reason) => {
                message.append("invalid URL: ");
                message.append(reason.as_str());
            },
            VaultError::DuplicateVar(name) => {
                message.append("duplicate environment variable: ");
                message.append(name.as_str());
            },
            VaultError::Unspecified { status, body } => {
                message.append("unknown error (status ");
                message.append(write_numeral(*status as u32, 10).as_str());
                message.append("): ");
                message.append(body.as_str());
            },
            VaultError::KubernetesJwtFailed(reason) => {
                message.append("failed to read Kubernetes JWT: ");
                message.append(reason.as_str());
            },
            VaultError::KubernetesJwtInvalidUtf8 => {
                message.append("Kubernetes JWT is not valid UTF-8");
            },
            VaultError::CloudMetadataFailed(reason) => {
                message.append("cloud metadata fetch failed: ");
                message.append(reason.as_str());
            },
        }
        assert(message@ =~= self@.said());
        message
    }
}

} // verus!
