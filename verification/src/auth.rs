//! Authentication methods for Vault.

use vstd::prelude::*;
use vstd::string::*;

use crate::cloud_metadata::Ec2SignatureType;
use crate::text::{ascii_lowered, law_trimmed, law_trimmed_between, numeral, opt_str, opt_text};
use crate::text::{trimmed, white_space};
use crate::text::{same_text, to_ascii_lower, trim, write_numeral};

verus! {

/// Authentication method for Vault.
#[derive(Debug, Clone, PartialEq, Eq)]
pub enum AuthMethod {
    /// No authentication (do not send `X-Vault-Token`).
    Unauthenticated,
    /// Authenticate via GitHub personal access token.
    GitHub(String),
    /// Authenticate via Kubernetes service account.
    Kubernetes { role: String },
    /// Direct Vault token.
    VaultToken { token: String },
    /// Authenticate via AppRole (role_id + secret_id).
    AppRole { role_id: String, secret_id: String },
    /// Authenticate via LDAP (username + password).
    Ldap { username: String, password: String },
    /// Authenticate via Okta (username + password).
    Okta { username: String, password: String },
    /// Authenticate via Azure Managed Service Identity (instance mode).
    Azure { role: String, resource: Option<String> },
    /// Authenticate via GCP GCE instance metadata.
    Gcp { role: String },
    /// Authenticate via AWS EC2 instance metadata (PKCS7 / identity document).
    AwsEc2 { role: String, signature_type: Ec2SignatureType },
    /// Authenticate via JWT/OIDC pre-exchanged token.
    Jwt { role: String, token: String },
}

/// The model of an [`AuthMethod`].
pub enum AuthMethodView {
    Unauthenticated,
    GitHub(Seq<char>),
    Kubernetes { role: Seq<char> },
    VaultToken { token: Seq<char> },
    AppRole { role_id: Seq<char>, secret_id: Seq<char> },
    Ldap { username: Seq<char>, password: Seq<char> },
    Okta { username: Seq<char>, password: Seq<char> },
    Azure { role: Seq<char>, resource: Option<Seq<char>> },
    Gcp { role: Seq<char> },
    AwsEc2 { role: Seq<char>, signature_type: Ec2SignatureType },
    Jwt { role: Seq<char>, token: Seq<char> },
}

impl View for AuthMethod {
    type V = AuthMethodView;

    open spec fn view(&self) -> AuthMethodView {
        match *self {
            AuthMethod::Unauthenticated => AuthMethodView::Unauthenticated,
            AuthMethod::GitHub(token) => AuthMethodView::GitHub(token@),
            AuthMethod::Kubernetes { role } => AuthMethodView::Kubernetes { role: role@ },
            AuthMethod::VaultToken { token } => AuthMethodView::VaultToken { token: token@ },
            AuthMethod::AppRole { role_id, secret_id } => AuthMethodView::AppRole {
                role_id: role_id@,
                secret_id: secret_id@,
            },
            AuthMethod::Ldap { username, password } => AuthMethodView::Ldap {
                username: username@,
                password: password@,
            },
            AuthMethod::Okta { username, password } => AuthMethodView::Okta {
                username: username@,
                password: password@,
            },
            AuthMethod::Azure { role, resource } => AuthMethodView::Azure {
                role: role@,
                resource: opt_text(resource),
            },
            AuthMethod::Gcp { role } => AuthMethodView::Gcp { role: role@ },
            AuthMethod::AwsEc2 { role, signature_type } => AuthMethodView::AwsEc2 {
                role: role@,
                signature_type,
            },
            AuthMethod::Jwt { role, token } => AuthMethodView::Jwt { role: role@, token: token@ },
        }
    }
}

/// A method is modelled by the characters of its parts.
pub proof fn law_method_view(method: AuthMethod)
    ensures
        match method {
            AuthMethod::Unauthenticated => method@ is Unauthenticated,
            AuthMethod::GitHub(token) => method@ == AuthMethodView::GitHub(token@),
            AuthMethod::Kubernetes { role } => method@ == (AuthMethodView::Kubernetes {
                role: role@,
            }),
            AuthMethod::VaultToken { token } => method@ == (AuthMethodView::VaultToken {
                token: token@,
            }),
            AuthMethod::AppRole { role_id, secret_id } => method@ == (AuthMethodView::AppRole {
                role_id: role_id@,
                secret_id: secret_id@,
            }),
            AuthMethod::Ldap { username, password } => method@ == (AuthMethodView::Ldap {
                username: username@,
                password: password@,
            }),
            AuthMethod::Okta { username, password } => method@ == (AuthMethodView::Okta {
                username: username@,
                password: password@,
            }),
            AuthMethod::Azure { role, resource } => method@ == (AuthMethodView::Azure {
                role: role@,
                resource: opt_text(resource),
            }),
            AuthMethod::Gcp { role } => method@ == (AuthMethodView::Gcp { role: role@ }),
            AuthMethod::AwsEc2 { role, signature_type } => method@ == (AuthMethodView::AwsEc2 {
                role: role@,
                signature_type,
            }),
            AuthMethod::Jwt { role, token } => method@ == (AuthMethodView::Jwt {
                role: role@,
                token: token@,
            }),
        },
{
}

/// What was found where a file was looked for.
#[derive(Debug, Clone, PartialEq, Eq)]
pub enum FileContents {
    /// There is no such file.
    Missing,
    /// The file could not be read, for the reason given.
    Unreadable(String),
    /// The text of the file.
    Text(String),
}

/// Why a file with a token was of no use.
#[derive(Debug, Clone, PartialEq, Eq)]
pub enum TokenFileError {
    /// The file with a JWT could not be read, for the reason given.
    JwtUnreadable { file: String, reason: String },
    /// The file could not be read, for the reason given.
    Unreadable { file: String, reason: String },
    /// The permissions of the file could not be found out, for the reason given.
    NoPermissions { file: String, reason: String },
    /// The permissions let others than the owner at the file.
    Exposed { file: String, mode: u32 },
}

/// The model of a [`TokenFileError`].
pub enum TokenFileErrorView {
    JwtUnreadable { file: Seq<char>, reason: Seq<char> },
    Unreadable { file: Seq<char>, reason: Seq<char> },
    NoPermissions { file: Seq<char>, reason: Seq<char> },
    Exposed { file: Seq<char>, mode: u32 },
}

impl View for TokenFileError {
    type V = TokenFileErrorView;

    open spec fn view(&self) -> TokenFileErrorView {
        match *self {
            TokenFileError::JwtUnreadable { file, reason } => TokenFileErrorView::JwtUnreadable {
                file: file@,
                reason: reason@,
            },
            TokenFileError::Unreadable { file, reason } => TokenFileErrorView::Unreadable {
                file: file@,
                reason: reason@,
            },
            TokenFileError::NoPermissions { file, reason } => TokenFileErrorView::NoPermissions {
                file: file@,
                reason: reason@,
            },
            TokenFileError::Exposed { file, mode } => TokenFileErrorView::Exposed {
                file: file@,
                mode,
            },
        }
    }
}

impl TokenFileErrorView {
    /// What the error says.
    pub open spec fn said(self) -> Seq<char> {
        match self {
            TokenFileErrorView::JwtUnreadable { file, .. } => "failed to read jwt file: "@ + file,
            TokenFileErrorView::Unreadable { file, .. } => "failed to read token file: "@ + file,
            TokenFileErrorView::NoPermissions { file, .. } => "failed to stat token file: "@ + file,
            TokenFileErrorView::Exposed { file, mode } => "refusing to read token from "@ + file
                + ": file is group/world readable (mode 0o"@ + numeral((mode & 0o7777) as nat, 8)
                + "). chmod 600 it, or set VAULTENV_ALLOW_INSECURE_TOKEN_FILE=1 to bypass this check."@,
        }
    }

    /// What made the error come about, where that is known.
    pub open spec fn cause(self) -> Option<Seq<char>> {
        match self {
            TokenFileErrorView::JwtUnreadable { reason, .. } => Some(reason),
            TokenFileErrorView::Unreadable { reason, .. } => Some(reason),
            TokenFileErrorView::NoPermissions { reason, .. } => Some(reason),
            TokenFileErrorView::Exposed { .. } => None,
        }
    }
}

impl TokenFileError {
    /// What the error says.
    pub fn message(&self) -> (message: String)
        ensures
            message@ == self@.said(),
    {
        let mut message = String::new();
        match self {
            TokenFileError::JwtUnreadable { file, .. } => {
                message.append("failed to read jwt file: ");
                message.append(file.as_str());
            },
            TokenFileError::Unreadable { file, .. } => {
                message.append("failed to read token file: ");
                message.append(file.as_str());
            },
            TokenFileError::NoPermissions { file, .. } => {
                message.append("failed to stat token file: ");
                message.append(file.as_str());
            },
            TokenFileError::Exposed { file, mode } => {
                message.append("refusing to read token from ");
                message.append(file.as_str());
                message.append(": file is group/world readable (mode 0o");
                message.append(write_numeral(*mode & 0o7777, 8).as_str());
                message.append(
                    "). chmod 600 it, or set VAULTENV_ALLOW_INSECURE_TOKEN_FILE=1 to bypass this check.",
                );
            },
        }
        assert(message@ =~= self@.said());
        message
    }

    /// What made the error come about, where that is known.
    pub fn cause(&self) -> (cause: Option<&str>)
        ensures
            opt_str(cause) == self@.cause(),
    {
        match self {
            TokenFileError::JwtUnreadable { reason, .. } => Some(reason.as_str()),
            TokenFileError::Unreadable { reason, .. } => Some(reason.as_str()),
            TokenFileError::NoPermissions { reason, .. } => Some(reason.as_str()),
            TokenFileError::Exposed { .. } => None,
        }
    }
}

/// Resolve the effective authentication token (if JWT is passed via file).
///
/// `contents` is the text of the file, or why it could not be read.
pub fn resolve_jwt_file_token(
    file: &str,
    contents: Result<String, String>,
    role: String,
) -> (method: Result<AuthMethod, TokenFileError>)
    ensures
        match contents {
            Ok(text) => method is Ok && method->Ok_0@ == (AuthMethodView::Jwt {
                role: role@,
                token: trimmed(text@),
            }),
            Err(reason) => method is Err && method->Err_0@ == (TokenFileErrorView::JwtUnreadable {
                file: file@,
                reason: reason@,
            }),
        },
{
    match contents {
        Ok(text) => Ok(AuthMethod::Jwt { role, token: trim(text.as_str()) }),
        Err(reason) => Err(TokenFileError::JwtUnreadable { file: file.to_owned(), reason }),
    }
}

/// Whether permissions let the group or others at a file.
pub open spec fn exposed(mode: u32) -> bool {
    mode & 0o077 != 0
}

/// Whether a setting allows for exposed files: it does if it is `1`, or `true`
/// in any case.
pub open spec fn allows_exposed(setting: Option<Seq<char>>) -> bool {
    match setting {
        Some(value) => value == "1"@ || ascii_lowered(value) == "true"@,
        None => false,
    }
}

/// The token in a file, if it holds one that may be used.
pub open spec fn token_in_file(
    file: Seq<char>,
    contents: FileContents,
    mode: Result<u32, String>,
    setting: Option<Seq<char>>,
) -> Result<Option<Seq<char>>, TokenFileErrorView> {
    match contents {
        FileContents::Missing => Ok(None),
        FileContents::Unreadable(reason) => Err(
            TokenFileErrorView::Unreadable { file, reason: reason@ },
        ),
        FileContents::Text(text) => if trimmed(text@).len() == 0 {
            Ok(None)
        } else {
            match mode {
                Err(reason) => Err(TokenFileErrorView::NoPermissions { file, reason: reason@ }),
                Ok(mode) => if exposed(mode) && !allows_exposed(setting) {
                    Err(TokenFileErrorView::Exposed { file, mode })
                } else {
                    Ok(Some(trimmed(text@)))
                },
            }
        },
    }
}

/// A token that was found in a file is not empty, has no white space at its
/// ends, and comes from a file that is closed to others, or whose exposure is
/// allowed for.
pub proof fn law_token_file(
    file: Seq<char>,
    contents: FileContents,
    mode: Result<u32, String>,
    setting: Option<Seq<char>>,
    token: Seq<char>,
)
    requires
        token_in_file(file, contents, mode, setting) == Ok::<
            Option<Seq<char>>,
            TokenFileErrorView,
        >(Some(token)),
    ensures
        token.len() > 0,
        !white_space(token[0]),
        !white_space(token.last()),
        mode matches Ok(mode) && (exposed(mode) ==> allows_exposed(setting)),
{
    if let FileContents::Text(text) = contents {
        law_trimmed(text@);
    }
}

/// The settings that allow for exposed files are `1`, and `true` in upper and lower
/// case.
pub proof fn law_allows_exposed(setting: Option<Seq<char>>)
    ensures
        setting is None ==> !allows_exposed(setting),
        setting matches Some(value) ==> (allows_exposed(setting) <==> value == seq!['1'] || (
        value.len() == 4 && (value[0] == 't' || value[0] == 'T') && (value[1] == 'r' || value[1]
            == 'R') && (value[2] == 'u' || value[2] == 'U') && (value[3] == 'e' || value[3]
            == 'E'))),
{
    reveal_strlit("1");
    reveal_strlit("true");
    assert("1"@ =~= seq!['1']);
    if let Some(value) = setting {
        let lower = ascii_lowered(value);
        if lower == "true"@ {
            assert(lower.len() == 4);
            assert(lower[0] == 't' && lower[1] == 'r' && lower[2] == 'u' && lower[3] == 'e');
        }
        if value.len() == 4 && (value[0] == 't' || value[0] == 'T') && (value[1] == 'r' || value[1]
            == 'R') && (value[2] == 'u' || value[2] == 'U') && (value[3] == 'e' || value[3]
            == 'E') {
            assert(lower =~= "true"@);
        }
    }
}

/// A file gives its text, without the white space around it, as the token, if it is
/// closed to the group and to others or its exposure is allowed for; else it is
/// refused by name and mode. What could not be found out is reported with its reason.
pub proof fn law_token_in_file(
    file: Seq<char>,
    before: Seq<char>,
    token: Seq<char>,
    after: Seq<char>,
    text: String,
    mode: u32,
    reason: String,
    setting: Option<Seq<char>>,
)
    requires
        text@ == before + token + after,
        forall|i: int| 0 <= i < before.len() ==> white_space(#[trigger] before[i]),
        forall|i: int| 0 <= i < after.len() ==> white_space(#[trigger] after[i]),
        token.len() > 0,
        !white_space(token[0]) && !white_space(token.last()),
    ensures
        mode % 64 == 0 || allows_exposed(setting) ==> token_in_file(
            file,
            FileContents::Text(text),
            Ok(mode),
            setting,
        ) == Ok::<Option<Seq<char>>, TokenFileErrorView>(Some(token)),
        mode % 64 != 0 && !allows_exposed(setting) ==> token_in_file(
            file,
            FileContents::Text(text),
            Ok(mode),
            setting,
        ) == Err::<Option<Seq<char>>, TokenFileErrorView>(
            TokenFileErrorView::Exposed { file, mode },
        ),
        token_in_file(file, FileContents::Text(text), Err(reason), setting) == Err::<
            Option<Seq<char>>,
            TokenFileErrorView,
        >(TokenFileErrorView::NoPermissions { file, reason: reason@ }),
        token_in_file(file, FileContents::Unreadable(reason), Ok(mode), setting) == Err::<
            Option<Seq<char>>,
            TokenFileErrorView,
        >(TokenFileErrorView::Unreadable { file, reason: reason@ }),
{
    law_trimmed_between(before, token, after);
    law_exposed_bits(mode);
}

/// What the errors say: each its own words, the file, and for an exposed file its
/// permission bits in octal.
pub proof fn law_token_file_errors(file: Seq<char>, reason: Seq<char>, mode: u32)
    ensures
        (TokenFileErrorView::JwtUnreadable { file, reason }).said() == "failed to read jwt file: "@
            + file,
        (TokenFileErrorView::Unreadable { file, reason }).said() == "failed to read token file: "@
            + file,
        (TokenFileErrorView::NoPermissions { file, reason }).said()
            == "failed to stat token file: "@ + file,
        (TokenFileErrorView::Exposed { file, mode }).said() == "refusing to read token from "@
            + file + ": file is group/world readable (mode 0o"@ + numeral(mode as nat % 4096, 8)
            + "). chmod 600 it, or set VAULTENV_ALLOW_INSECURE_TOKEN_FILE=1 to bypass this check."@,
        (TokenFileErrorView::JwtUnreadable { file, reason }).cause() == Some(reason),
        (TokenFileErrorView::Unreadable { file, reason }).cause() == Some(reason),
        (TokenFileErrorView::NoPermissions { file, reason }).cause() == Some(reason),
        (TokenFileErrorView::Exposed { file, mode }).cause() is None,
{
    assert(mode & 0o7777 == mode % 4096) by (bit_vector);
}

/// A missing file, or one without a token, is no error, whatever its
/// permissions.
pub proof fn law_no_token_is_no_error(
    file: Seq<char>,
    contents: FileContents,
    mode: Result<u32, String>,
    setting: Option<Seq<char>>,
)
    requires
        match contents {
            FileContents::Missing => true,
            FileContents::Unreadable(_) => false,
            FileContents::Text(text) => trimmed(text@).len() == 0,
        },
    ensures
        token_in_file(file, contents, mode, setting) == Ok::<
            Option<Seq<char>>,
            TokenFileErrorView,
        >(None),
{
}

/// Permissions are exposed if and only if one of the six lowest bits is set.
pub proof fn law_exposed_bits(mode: u32)
    ensures
        exposed(mode) <==> mode % 64 != 0,
{
    assert(mode & 0o077 == mode % 64) by (bit_vector);
}

/// Read a token from a file (typically `~/.vault-token`).
///
/// Returns `Ok(None)` if the file does not exist (this is normal: `vault login`
/// creates the file but a fresh install won't have it). Returns `Ok(Some(token))`
/// on success. Returns an error only on permission-policy violations or I/O
/// errors that are not "file missing".
///
/// The permission bits of the file, `mode`, are checked; where there are none,
/// they are zero. By default, any bit for the group or others is rejected. The
/// `setting` (of `VAULTENV_ALLOW_INSECURE_TOKEN_FILE`) can bypass the check.
///
/// White space at the start and the end of the file is trimmed, and a file of
/// nothing but white space holds no token.
pub fn resolve_token_file(
    file: &str,
    contents: FileContents,
    mode: Result<u32, String>,
    setting: Option<&str>,
) -> (token: Result<Option<String>, TokenFileError>)
    ensures
        match token {
            Ok(token) => token_in_file(file@, contents, mode, opt_str(setting)) == Ok::<
                Option<Seq<char>>,
                TokenFileErrorView,
            >(opt_text(token)),
            Err(error) => token_in_file(file@, contents, mode, opt_str(setting)) == Err::<
                Option<Seq<char>>,
                TokenFileErrorView,
            >(error@),
        },
{
    let text = match contents {
        FileContents::Missing => {
            return Ok(None);
        },
        FileContents::Unreadable(reason) => {
            return Err(TokenFileError::Unreadable { file: file.to_owned(), reason });
        },
        FileContents::Text(text) => text,
    };
    let token = trim(text.as_str());
    if token.as_str().is_empty() {
        return Ok(None);
    }
    let mode = match mode {
        Ok(mode) => mode,
        Err(reason) => {
            return Err(TokenFileError::NoPermissions { file: file.to_owned(), reason });
        },
    };
    if mode & 0o077 != 0 {
        let allowed = match setting {
            Some(value) => same_text(value, "1") || same_text(
                to_ascii_lower(value).as_str(),
                "true",
            ),
            None => false,
        };
        if !allowed {
            return Err(TokenFileError::Exposed { file: file.to_owned(), mode });
        }
    }
    Ok(Some(token))
}

} // verus!
