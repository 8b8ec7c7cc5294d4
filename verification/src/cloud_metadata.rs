//! Cloud instance metadata for the Vault cloud auth backends.
//!
//! Covers Azure (MSI), GCP (GCE metadata) and AWS (EC2 IMDS): which requests to
//! send to the metadata services, and what to make of their replies.

use vstd::prelude::*;
use vstd::string::*;
use vstd::utf8::encode_utf8;

use crate::http::{status_text, success_code};
use crate::http::{HttpRequest, HttpRequestView, Method, Reply, ReplyView};
use crate::string_map::{text_map, StringMap};
use crate::text::{ascii_lowered, law_trimmed_between, opt_str, opt_text, pair_views};
use crate::text::{text_views, trimmed, white_space};
use crate::text::{same_text, to_ascii_lower, trim};

verus! {

/// How EC2 instance identity documents are signed.
#[derive(Debug, Clone, Copy, PartialEq, Eq, Default, Structural)]
pub enum Ec2SignatureType {
    /// PKCS #7 document (default).
    #[default]
    Pkcs7,
    /// Identity document + RSA signature.
    Identity,
    /// RSA 2048 PKCS#7 document.
    Rsa2048,
}

/// A signature type as an option gives it.
#[derive(Debug, Clone, Copy, PartialEq, Eq, Structural)]
pub struct Ec2SignatureTypeArg(pub Ec2SignatureType);

/// The name of a signature type.
pub open spec fn signature_name(sig: Ec2SignatureType) -> Seq<char> {
    match sig {
        Ec2SignatureType::Pkcs7 => "pkcs7"@,
        Ec2SignatureType::Identity => "identity"@,
        Ec2SignatureType::Rsa2048 => "rsa2048"@,
    }
}

/// Whether a text is none of the names of signature types, in any case.
pub open spec fn no_signature_name(text: Seq<char>) -> bool {
    forall|sig: Ec2SignatureType| ascii_lowered(text) != #[trigger] signature_name(sig)
}

/// No two signature types share a name, and the names are in lower case: so the
/// name of a signature type is read as that type.
pub proof fn law_signature_names(a: Ec2SignatureType, b: Ec2SignatureType)
    ensures
        signature_name(a) == signature_name(b) ==> a == b,
        ascii_lowered(signature_name(a)) == signature_name(a),
{
    reveal_strlit("pkcs7");
    reveal_strlit("identity");
    reveal_strlit("rsa2048");
    assert(signature_name(a)[0] == signature_name(b)[0] ==> a == b);
    assert(ascii_lowered(signature_name(a)) =~= signature_name(a));
}

/// The names of the signature types.
pub proof fn law_signature_type_names()
    ensures
        signature_name(Ec2SignatureType::Pkcs7) == "pkcs7"@,
        signature_name(Ec2SignatureType::Identity) == "identity"@,
        signature_name(Ec2SignatureType::Rsa2048) == "rsa2048"@,
{
}

/// A text that is no name of a signature type is none of their names in upper or lower
/// case; and any other text is one.
pub proof fn law_no_signature_name(text: Seq<char>)
    ensures
        no_signature_name(text) <==> !seq!["pkcs7"@, "identity"@, "rsa2048"@].contains(
            ascii_lowered(text),
        ),
{
    let lower = ascii_lowered(text);
    let names = seq!["pkcs7"@, "identity"@, "rsa2048"@];
    assert(names[0] == signature_name(Ec2SignatureType::Pkcs7) && names[1] == signature_name(
        Ec2SignatureType::Identity,
    ) && names[2] == signature_name(Ec2SignatureType::Rsa2048));
    if no_signature_name(text) {
        assert(!names.contains(lower));
    } else {
        let sig = choose|sig: Ec2SignatureType| lower == #[trigger] signature_name(sig);
        assert(names.contains(lower));
    }
}

impl Default for Ec2SignatureTypeArg {
    fn default() -> (arg: Self)
        ensures
            arg == Ec2SignatureTypeArg(Ec2SignatureType::Pkcs7),
    {
        Ec2SignatureTypeArg(Ec2SignatureType::Pkcs7)
    }
}

impl Ec2SignatureType {
    /// Reads the name of a signature type, in upper or lower case.
    pub fn parse(s: &str) -> (sig: Result<Self, String>)
        ensures
            match sig {
                Ok(sig) => ascii_lowered(s@) == signature_name(sig),
                Err(reason) => no_signature_name(s@) && reason@ == "unknown EC2 signature type '"@
                    + s@ + "', expected 'pkcs7', 'identity', or 'rsa2048'"@,
            },
    {
        let name = to_ascii_lower(s);
        if same_text(name.as_str(), "pkcs7") {
            Ok(Ec2SignatureType::Pkcs7)
        } else if same_text(name.as_str(), "identity") {
            Ok(Ec2SignatureType::Identity)
        } else if same_text(name.as_str(), "rsa2048") {
            Ok(Ec2SignatureType::Rsa2048)
        } else {
            let mut reason = "unknown EC2 signature type '".to_owned();
            reason.append(s);
            reason.append("', expected 'pkcs7', 'identity', or 'rsa2048'");
            Err(reason)
        }
    }
}

impl Ec2SignatureTypeArg {
    /// Reads the name of a signature type, in upper or lower case.
    pub fn parse(s: &str) -> (arg: Result<Self, String>)
        ensures
            match arg {
                Ok(arg) => ascii_lowered(s@) == signature_name(arg.0),
                Err(reason) => no_signature_name(s@) && reason@ == "unknown EC2 signature type '"@
                    + s@ + "', expected 'pkcs7', 'identity', or 'rsa2048'"@,
            },
    {
        match Ec2SignatureType::parse(s) {
            Ok(sig) => Ok(Ec2SignatureTypeArg(sig)),
            Err(reason) => Err(reason),
        }
    }

    /// The name of the signature type.
    pub fn to_string(&self) -> (name: String)
        ensures
            name@ == signature_name(self.0),
    {
        match self.0 {
            Ec2SignatureType::Pkcs7 => "pkcs7".to_owned(),
            Ec2SignatureType::Identity => "identity".to_owned(),
            Ec2SignatureType::Rsa2048 => "rsa2048".to_owned(),
        }
    }
}

impl std::str::FromStr for Ec2SignatureType {
    type Err = String;

    fn from_str(s: &str) -> (sig: Result<Self, String>)
        ensures
            match sig {
                Ok(sig) => ascii_lowered(s@) == signature_name(sig),
                Err(reason) => no_signature_name(s@) && reason@ == "unknown EC2 signature type '"@
                    + s@ + "', expected 'pkcs7', 'identity', or 'rsa2048'"@,
            },
    {
        Ec2SignatureType::parse(s)
    }
}

impl std::str::FromStr for Ec2SignatureTypeArg {
    type Err = String;

    fn from_str(s: &str) -> (arg: Result<Self, String>)
        ensures
            match arg {
                Ok(arg) => ascii_lowered(s@) == signature_name(arg.0),
                Err(reason) => no_signature_name(s@) && reason@ == "unknown EC2 signature type '"@
                    + s@ + "', expected 'pkcs7', 'identity', or 'rsa2048'"@,
            },
    {
        Ec2SignatureTypeArg::parse(s)
    }
}

/// The upper-case hexadecimal digit with the given value, which is below 16.
pub open spec fn hex_digit(value: nat) -> char
    recommends
        value < 16,
{
    if value < 10 {
        (48 + value) as char
    } else {
        (55 + value) as char
    }
}

/// A byte as it stands in a URL: letters and digits as they are, any other
/// byte as a percent sign and two digits.
pub open spec fn percent_byte(byte: u8) -> Seq<char> {
    if 48 <= byte <= 57 || 65 <= byte <= 90 || 97 <= byte <= 122 {
        seq![byte as char]
    } else {
        seq!['%', hex_digit(byte as nat / 16), hex_digit(byte as nat % 16)]
    }
}

/// Bytes as they stand in a URL, each as [`percent_byte`] says.
pub open spec fn percent_encoded(bytes: Seq<u8>) -> Seq<char>
    decreases bytes.len(),
{
    if bytes.len() == 0 {
        Seq::empty()
    } else {
        percent_encoded(bytes.drop_last()) + percent_byte(bytes.last())
    }
}

/// `percent_encoding::utf8_percent_encode` with the set `NON_ALPHANUMERIC`:
/// every byte of the UTF-8 encoding that is no ASCII letter or digit is
/// written with a percent sign.
#[verifier::external_body]
fn percent_encode(s: &str) -> (res: String)
    ensures
        res@ == percent_encoded(encode_utf8(s@)),
{
    percent_encoding::utf8_percent_encode(s, percent_encoding::NON_ALPHANUMERIC).to_string()
}

/// The character that stands for six bits in Base64.
pub open spec fn base64_char(bits: nat) -> char
    recommends
        bits < 64,
{
    if bits < 26 {
        (65 + bits) as char
    } else if bits < 52 {
        (71 + bits) as char
    } else if bits < 62 {
        (bits - 4) as char
    } else if bits == 62 {
        '+'
    } else {
        '/'
    }
}

/// Bytes in Base64 (RFC 4648): each three bytes become four characters of six
/// bits, and what is missing at the end is padded with `=`.
pub open spec fn base64_encoded(bytes: Seq<u8>) -> Seq<char>
    decreases bytes.len(),
{
    if bytes.len() == 0 {
        Seq::empty()
    } else {
        let a = bytes[0] as nat;
        let b = if bytes.len() > 1 {
            bytes[1] as nat
        } else {
            0
        };
        let c = if bytes.len() > 2 {
            bytes[2] as nat
        } else {
            0
        };
        let group = seq![
            base64_char(a / 4),
            base64_char(a % 4 * 16 + b / 16),
            if bytes.len() > 1 {
                base64_char(b % 16 * 4 + c / 64)
            } else {
                '='
            },
            if bytes.len() > 2 {
                base64_char(c % 64)
            } else {
                '='
            },
        ];
        if bytes.len() > 3 {
            group + base64_encoded(bytes.skip(3))
        } else {
            group
        }
    }
}

/// `base64::Engine::encode` of the engine `general_purpose::STANDARD`: the
/// UTF-8 encoding of the string in Base64.
#[verifier::external_body]
fn base64_encode(s: &str) -> (res: String)
    ensures
        res@ == base64_encoded(encode_utf8(s@)),
{
    base64::Engine::encode(&base64::engine::general_purpose::STANDARD, s.as_bytes())
}

/// The text that is given, else the usual one.
pub open spec fn given_or(given: Option<Seq<char>>, usual: Seq<char>) -> Seq<char> {
    match given {
        Some(given) => given,
        None => usual,
    }
}

/// A request for metadata, which is given up after ten seconds.
pub open spec fn metadata_request(
    url: Seq<char>,
    headers: Seq<(Seq<char>, Seq<char>)>,
) -> HttpRequestView {
    HttpRequestView { method: Method::Get, url, headers, body: None, timeout_secs: Some(10) }
}

/// The header by which Azure knows a request for metadata.
pub open spec fn azure_headers() -> Seq<(Seq<char>, Seq<char>)> {
    seq![("Metadata"@, "true"@)]
}

/// The header by which GCE knows a request for metadata.
pub open spec fn gce_headers() -> Seq<(Seq<char>, Seq<char>)> {
    seq![("Metadata-Flavor"@, "Google"@)]
}

/// The address of the metadata services of Azure and EC2.
pub open spec fn link_local() -> Seq<char> {
    "http://169.254.169.254"@
}

/// Where Azure hands out tokens for a resource.
pub open spec fn azure_jwt_url(endpoint: Option<Seq<char>>, resource: Seq<char>) -> Seq<char> {
    given_or(endpoint, link_local()) + "/metadata/identity/oauth2/token?api-version="@
        + "2021-05-01"@ + "&resource="@ + percent_encoded(encode_utf8(resource))
}

/// Where Azure describes the virtual machine.
pub open spec fn azure_vm_url(endpoint: Option<Seq<char>>) -> Seq<char> {
    given_or(endpoint, link_local()) + "/metadata/instance/compute?api-version="@ + "2021-05-01"@
}

/// Where GCE hands out identity tokens for an audience.
pub open spec fn gce_jwt_url(host: Option<Seq<char>>, audience: Seq<char>) -> Seq<char> {
    given_or(host, "http://metadata.google.internal"@)
        + "/computeMetadata/v1/instance/service-accounts/default/identity"@ + "?audience="@
        + percent_encoded(encode_utf8(audience)) + "&format=full"@
}

/// The body of a reply that succeeded, if that could be read, or what is said
/// of one that did not.
pub open spec fn metadata_body(
    reply: ReplyView,
    no_answer: Seq<char>,
    service: Seq<char>,
) -> Result<Option<Seq<char>>, Seq<char>> {
    match reply {
        ReplyView::Unreachable(_) => Err(no_answer),
        ReplyView::Answer { status, body } => if success_code(status) {
            Ok(body)
        } else {
            Err(service + " returned HTTP "@ + status_text(status) + ": "@ + given_or(body, ""@))
        },
    }
}

/// What stands in a reply that succeeded, as `found`, or what is said where
/// the reply did not succeed or nothing was found.
pub open spec fn metadata_found<T>(
    body: Result<Option<Seq<char>>, Seq<char>>,
    found: Option<T>,
    nothing: Seq<char>,
) -> Result<T, Seq<char>> {
    match body {
        Err(reason) => Err(reason),
        Ok(_) => match found {
            Some(found) => Ok(found),
            None => Err(nothing),
        },
    }
}

/// A metadata service is asked by a plain request with the given URL and headers, for
/// at most ten seconds.
pub proof fn law_metadata_request(url: Seq<char>, headers: Seq<(Seq<char>, Seq<char>)>)
    ensures
        metadata_request(url, headers).method == Method::Get,
        metadata_request(url, headers).url == url,
        metadata_request(url, headers).headers == headers,
        metadata_request(url, headers).body is None,
        metadata_request(url, headers).timeout_secs == Some(10u64),
        azure_headers() == seq![("Metadata"@, "true"@)],
        gce_headers() == seq![("Metadata-Flavor"@, "Google"@)],
{
}

/// Where the metadata services are asked: at the place that is given, else at the one
/// that they are known for; for the resource or the audience, percent-encoded.
pub proof fn law_metadata_urls(place: Seq<char>, about: Seq<char>)
    ensures
        azure_jwt_url(Some(place), about) == place
            + "/metadata/identity/oauth2/token?api-version="@ + "2021-05-01"@ + "&resource="@
            + percent_encoded(encode_utf8(about)),
        azure_jwt_url(None, about) == azure_jwt_url(Some("http://169.254.169.254"@), about),
        azure_vm_url(Some(place)) == place + "/metadata/instance/compute?api-version="@
            + "2021-05-01"@,
        azure_vm_url(None) == azure_vm_url(Some("http://169.254.169.254"@)),
        gce_jwt_url(Some(place), about) == place
            + "/computeMetadata/v1/instance/service-accounts/default/identity"@ + "?audience="@
            + percent_encoded(encode_utf8(about)) + "&format=full"@,
        gce_jwt_url(None, about) == gce_jwt_url(Some("http://metadata.google.internal"@), about),
{
}

/// A byte is written so that a URL can hold it: an ASCII letter or digit as itself,
/// any other byte as a percent sign and its two hexadecimal digits; one byte behind
/// the other.
pub proof fn law_percent_encoded(bytes: Seq<u8>, byte: u8)
    ensures
        percent_encoded(Seq::empty()).len() == 0,
        percent_encoded(bytes.push(byte)) == percent_encoded(bytes) + percent_byte(byte),
        48 <= byte <= 57 || 65 <= byte <= 90 || 97 <= byte <= 122 ==> percent_byte(byte) == seq![
            byte as char,
        ],
        !(48 <= byte <= 57 || 65 <= byte <= 90 || 97 <= byte <= 122) ==> percent_byte(byte)
            == seq!['%', hex_digit(byte as nat / 16), hex_digit(byte as nat % 16)],
{
    assert(bytes.push(byte).drop_last() =~= bytes);
}

/// A reply with a status of success gives its body; any other reply is reported by the
/// name of the service, the status and the body, and none at all by the given words.
pub proof fn law_metadata_body(
    status: u16,
    text: Seq<char>,
    reason: Seq<char>,
    no_answer: Seq<char>,
    service: Seq<char>,
)
    ensures
        ({
            let answer = ReplyView::Answer { status, body: Some(text) };
            let unread = ReplyView::Answer { status, body: None };
            &&& status as int / 100 == 2 ==> metadata_body(answer, no_answer, service) == Ok::<
                Option<Seq<char>>,
                Seq<char>,
            >(Some(text))
            &&& status as int / 100 == 2 ==> metadata_body(unread, no_answer, service) == Ok::<
                Option<Seq<char>>,
                Seq<char>,
            >(None)
            &&& status as int / 100 != 2 ==> metadata_body(answer, no_answer, service) == Err::<
                Option<Seq<char>>,
                Seq<char>,
            >(service + " returned HTTP "@ + status_text(status) + ": "@ + text)
            &&& status as int / 100 != 2 ==> metadata_body(unread, no_answer, service) == Err::<
                Option<Seq<char>>,
                Seq<char>,
            >(service + " returned HTTP "@ + status_text(status) + ": "@)
            &&& metadata_body(ReplyView::Unreachable(reason), no_answer, service) == Err::<
                Option<Seq<char>>,
                Seq<char>,
            >(no_answer)
        }),
{
    reveal_strlit("");
    let words = service + " returned HTTP "@ + status_text(status) + ": "@;
    assert(words + ""@ =~= words);
}

/// What was found in a reply that succeeded is handed on as it is; where nothing was
/// found, or the reply did not succeed, the reason is.
pub proof fn law_metadata_found<T>(
    body: Option<Seq<char>>,
    found: T,
    reason: Seq<char>,
    nothing: Seq<char>,
)
    ensures
        metadata_found(Ok(body), Some(found), nothing) == Ok::<T, Seq<char>>(found),
        metadata_found(Ok(body), None::<T>, nothing) == Err::<T, Seq<char>>(nothing),
        metadata_found(Err(reason), Some(found), nothing) == Err::<T, Seq<char>>(reason),
        metadata_found(Err(reason), None::<T>, nothing) == Err::<T, Seq<char>>(reason),
{
}

/// Builds [`metadata_request`] with one header.
fn request_with(url: String, name: &str, value: &str) -> (request: HttpRequest)
    ensures
        request@ == metadata_request(url@, seq![(name@, value@)]),
{
    let mut headers: Vec<(String, String)> = Vec::new();
    headers.push((name.to_owned(), value.to_owned()));
    assert(pair_views(headers@) =~= seq![(name@, value@)]);
    HttpRequest { method: Method::Get, url, headers, body: None, timeout_secs: Some(10) }
}

/// The given text, else the usual one.
fn choose_text(given: Option<&str>, usual: &str) -> (text: String)
    ensures
        text@ == given_or(opt_str(given), usual@),
{
    match given {
        Some(given) => given.to_owned(),
        None => usual.to_owned(),
    }
}

/// Reads [`metadata_body`].
fn read_body(reply: Reply, no_answer: &str, service: &str) -> (body: Result<
    Option<String>,
    String,
>)
    ensures
        match body {
            Ok(body) => metadata_body(reply@, no_answer@, service@) == Ok::<
                Option<Seq<char>>,
                Seq<char>,
            >(opt_text(body)),
            Err(reason) => metadata_body(reply@, no_answer@, service@) == Err::<
                Option<Seq<char>>,
                Seq<char>,
            >(reason@),
        },
{
    match reply {
        Reply::Unreachable(_) => Err(no_answer.to_owned()),
        Reply::Answer { status, body } => if status.is_success() {
            Ok(body)
        } else {
            let mut reason = service.to_owned();
            reason.append(" returned HTTP ");
            reason.append(status.text().as_str());
            reason.append(": ");
            match &body {
                Some(body) => {
                    reason.append(body.as_str());
                },
                None => {
                    proof {
                        reveal_strlit("");
                    }
                },
            }
            assert(reason@ =~= service@ + " returned HTTP "@ + status_text(status@) + ": "@
                + given_or(opt_text(body), ""@));
            Err(reason)
        },
    }
}

/// The request for a token of the Azure Managed Service Identity endpoint.
pub fn azure_jwt_request(endpoint: Option<&str>, resource: &str) -> (request: HttpRequest)
    ensures
        request@ == metadata_request(azure_jwt_url(opt_str(endpoint), resource@), azure_headers()),
{
    let mut url = choose_text(endpoint, "http://169.254.169.254");
    url.append("/metadata/identity/oauth2/token?api-version=");
    url.append("2021-05-01");
    url.append("&resource=");
    url.append(percent_encode(resource).as_str());
    request_with(url, "Metadata", "true")
}

/// The token in the reply of the Azure Managed Service Identity endpoint.
///
/// `access_token` is what the body of the reply holds under that name, if it
/// is a JSON object that holds a string there.
pub fn get_azure_jwt(reply: Reply, access_token: Option<String>) -> (jwt: Result<String, String>)
    ensures
        match jwt {
            Ok(jwt) => metadata_found(
                metadata_body(reply@, "failed to request Azure MSI token"@, "Azure MSI"@),
                opt_text(access_token),
                "failed to parse Azure MSI token response"@,
            ) == Ok::<Seq<char>, Seq<char>>(jwt@),
            Err(reason) => metadata_found(
                metadata_body(reply@, "failed to request Azure MSI token"@, "Azure MSI"@),
                opt_text(access_token),
                "failed to parse Azure MSI token response"@,
            ) == Err::<Seq<char>, Seq<char>>(reason@),
        },
{
    match read_body(reply, "failed to request Azure MSI token", "Azure MSI") {
        Err(reason) => Err(reason),
        Ok(_) => match access_token {
            Some(jwt) => Ok(jwt),
            None => Err("failed to parse Azure MSI token response".to_owned()),
        },
    }
}

/// What Azure says of the virtual machine.
#[derive(Debug, Clone, PartialEq, Eq)]
pub struct AzureVmMetadata {
    pub name: String,
    pub vm_scale_set_name: String,
    pub subscription_id: String,
    pub resource_group_name: String,
}

/// The request for the Azure IMDS compute metadata.
pub fn azure_vm_metadata_request(endpoint: Option<&str>) -> (request: HttpRequest)
    ensures
        request@ == metadata_request(azure_vm_url(opt_str(endpoint)), azure_headers()),
{
    let mut url = choose_text(endpoint, "http://169.254.169.254");
    url.append("/metadata/instance/compute?api-version=");
    url.append("2021-05-01");
    request_with(url, "Metadata", "true")
}

/// The Azure IMDS compute metadata (name, subscription, resource group, etc.)
/// in a reply.
///
/// `metadata` is what the body of the reply holds, if it is such a
/// description.
pub fn get_azure_vm_metadata(reply: Reply, metadata: Option<AzureVmMetadata>) -> (found: Result<
    AzureVmMetadata,
    String,
>)
    ensures
        match found {
            Ok(found) => metadata_found(
                metadata_body(reply@, "failed to request Azure VM metadata"@, "Azure metadata"@),
                metadata,
                "failed to parse Azure VM metadata response"@,
            ) == Ok::<AzureVmMetadata, Seq<char>>(found),
            Err(reason) => metadata_found(
                metadata_body(reply@, "failed to request Azure VM metadata"@, "Azure metadata"@),
                metadata,
                "failed to parse Azure VM metadata response"@,
            ) == Err::<AzureVmMetadata, Seq<char>>(reason@),
        },
{
    match read_body(reply, "failed to request Azure VM metadata", "Azure metadata") {
        Err(reason) => Err(reason),
        Ok(_) => match metadata {
            Some(found) => Ok(found),
            None => Err("failed to parse Azure VM metadata response".to_owned()),
        },
    }
}

/// The request for an identity JWT of the GCE metadata service.
///
/// `audience` should be the Vault URL + `/vault/{role}` as expected by Vault.
pub fn gce_jwt_request(host: Option<&str>, audience: &str) -> (request: HttpRequest)
    ensures
        request@ == metadata_request(gce_jwt_url(opt_str(host), audience@), gce_headers()),
{
    let mut url = choose_text(host, "http://metadata.google.internal");
    url.append("/computeMetadata/v1/instance/service-accounts/default/identity");
    url.append("?audience=");
    url.append(percent_encode(audience).as_str());
    url.append("&format=full");
    request_with(url, "Metadata-Flavor", "Google")
}

/// The token that the reply of the GCE metadata service holds.
pub open spec fn gce_jwt(reply: ReplyView) -> Result<Seq<char>, Seq<char>> {
    match metadata_body(reply, "failed to request GCE identity JWT"@, "GCE metadata"@) {
        Err(reason) => Err(reason),
        Ok(None) => Err("failed to read GCE identity JWT body"@),
        Ok(Some(body)) => Ok(trimmed(body)),
    }
}

/// The identity JWT in a reply of the GCE metadata service.
pub fn get_gce_jwt(reply: Reply) -> (jwt: Result<String, String>)
    ensures
        match jwt {
            Ok(jwt) => gce_jwt(reply@) == Ok::<Seq<char>, Seq<char>>(jwt@),
            Err(reason) => gce_jwt(reply@) == Err::<Seq<char>, Seq<char>>(reason@),
        },
{
    match read_body(reply, "failed to request GCE identity JWT", "GCE metadata") {
        Err(reason) => Err(reason),
        Ok(None) => Err("failed to read GCE identity JWT body".to_owned()),
        Ok(Some(body)) => Ok(trim(body.as_str())),
    }
}

/// The text that a reply of the EC2 metadata service holds.
pub open spec fn ec2_text(reply: ReplyView) -> Result<Seq<char>, Seq<char>> {
    match metadata_body(reply, "failed to request EC2 instance metadata"@, "EC2 IMDS"@) {
        Err(reason) => Err(reason),
        Ok(None) => Err("failed to read EC2 metadata response"@),
        Ok(Some(body)) => Ok(body),
    }
}

/// Reads a reply of the EC2 metadata service.
pub fn fetch_ec2(reply: Reply) -> (text: Result<String, String>)
    ensures
        match text {
            Ok(text) => ec2_text(reply@) == Ok::<Seq<char>, Seq<char>>(text@),
            Err(reason) => ec2_text(reply@) == Err::<Seq<char>, Seq<char>>(reason@),
        },
{
    match read_body(reply, "failed to request EC2 instance metadata", "EC2 IMDS") {
        Err(reason) => Err(reason),
        Ok(None) => Err("failed to read EC2 metadata response".to_owned()),
        Ok(Some(body)) => Ok(body),
    }
}

/// The next thing to do for the EC2 metadata.
pub enum Ec2Step {
    /// Send the request, and read the text of its reply.
    Fetch(HttpRequest),
    /// The login fields for Vault AWS auth.
    Done(StringMap<String>),
}

/// The model of an [`Ec2Step`].
pub enum Ec2StepView {
    Fetch(HttpRequestView),
    Done(Map<Seq<char>, Seq<char>>),
}

impl View for Ec2Step {
    type V = Ec2StepView;

    open spec fn view(&self) -> Ec2StepView {
        match *self {
            Ec2Step::Fetch(request) => Ec2StepView::Fetch(request@),
            Ec2Step::Done(fields) => Ec2StepView::Done(text_map(fields@)),
        }
    }
}

/// The paths of the texts that a signature type needs, in order.
pub open spec fn ec2_paths(sig: Ec2SignatureType) -> Seq<Seq<char>> {
    match sig {
        Ec2SignatureType::Pkcs7 => seq!["/latest/dynamic/instance-identity/pkcs7"@],
        Ec2SignatureType::Identity => seq![
            "/latest/dynamic/instance-identity/document"@,
            "/latest/dynamic/instance-identity/signature"@,
        ],
        Ec2SignatureType::Rsa2048 => seq!["/latest/dynamic/instance-identity/rsa2048"@],
    }
}

/// The login fields that the texts of [`ec2_paths`] make.
pub open spec fn ec2_fields(sig: Ec2SignatureType, texts: Seq<Seq<char>>) -> Map<
    Seq<char>,
    Seq<char>,
> {
    match sig {
        Ec2SignatureType::Identity => Map::empty().insert(
            "identity"@,
            base64_encoded(encode_utf8(texts[0])),
        ).insert("signature"@, trimmed(texts[1])),
        _ => Map::empty().insert("pkcs7"@, trimmed(texts[0])),
    }
}

/// The next thing to do for the EC2 metadata, once the given texts were read.
pub open spec fn ec2_step(
    sig: Ec2SignatureType,
    endpoint: Option<Seq<char>>,
    texts: Seq<Seq<char>>,
) -> Ec2StepView {
    if texts.len() < ec2_paths(sig).len() {
        Ec2StepView::Fetch(
            metadata_request(
                given_or(endpoint, link_local()) + ec2_paths(sig)[texts.len() as int],
                Seq::empty(),
            ),
        )
    } else {
        Ec2StepView::Done(ec2_fields(sig, texts))
    }
}

/// The body of a reply that succeeded is the text of EC2 word for word, and the JWT of
/// GCE without the white space around it.
pub proof fn law_metadata_texts(
    status: u16,
    before: Seq<char>,
    text: Seq<char>,
    after: Seq<char>,
)
    requires
        200 <= status < 300,
        forall|i: int| 0 <= i < before.len() ==> white_space(#[trigger] before[i]),
        forall|i: int| 0 <= i < after.len() ==> white_space(#[trigger] after[i]),
        text.len() > 0 ==> !white_space(text[0]) && !white_space(text.last()),
    ensures
        ({
            let body = before + text + after;
            let reply = ReplyView::Answer { status, body: Some(body) };
            let unread = ReplyView::Answer { status, body: None };
            &&& gce_jwt(reply) == Ok::<Seq<char>, Seq<char>>(text)
            &&& ec2_text(reply) == Ok::<Seq<char>, Seq<char>>(body)
            &&& gce_jwt(unread) == Err::<Seq<char>, Seq<char>>(
                "failed to read GCE identity JWT body"@,
            )
            &&& ec2_text(unread) == Err::<Seq<char>, Seq<char>>(
                "failed to read EC2 metadata response"@,
            )
        }),
{
    law_trimmed_between(before, text, after);
}

/// A reply that did not succeed fails the fetching, with the name of the service.
pub proof fn law_metadata_failures(reply: ReplyView)
    ensures
        metadata_body(reply, "failed to request GCE identity JWT"@, "GCE metadata"@) matches Err(
            reason,
        ) ==> gce_jwt(reply) == Err::<Seq<char>, Seq<char>>(reason),
        metadata_body(reply, "failed to request EC2 instance metadata"@, "EC2 IMDS"@) matches Err(
            reason,
        ) ==> ec2_text(reply) == Err::<Seq<char>, Seq<char>>(reason),
{
}

/// For EC2 the texts that the signature type needs are fetched one by one, each from
/// the given place, else from the one that it is known for: the PKCS #7 document, the
/// RSA-2048 document, or the identity document and then its signature.
pub proof fn law_ec2_fetches(
    sig: Ec2SignatureType,
    place: Seq<char>,
    texts: Seq<Seq<char>>,
)
    ensures
        ({
            let base = place + "/latest/dynamic/instance-identity/"@;
            let step = ec2_step(sig, Some(place), texts);
            let url = (step->Fetch_0).url;
            &&& texts.len() == 0 ==> step is Fetch && url == base + (match sig {
                Ec2SignatureType::Pkcs7 => "pkcs7"@,
                Ec2SignatureType::Identity => "document"@,
                Ec2SignatureType::Rsa2048 => "rsa2048"@,
            })
            &&& texts.len() == 1 && sig == Ec2SignatureType::Identity ==> step is Fetch && url
                == base + "signature"@
            &&& texts.len() == 1 && sig != Ec2SignatureType::Identity ==> step is Done
            &&& texts.len() == 2 ==> step is Done
            &&& step is Fetch ==> (step->Fetch_0).headers.len() == 0 && (
            step->Fetch_0).timeout_secs == Some(10u64)
        }),
        ec2_step(sig, None, texts) == ec2_step(sig, Some("http://169.254.169.254"@), texts),
{
    reveal_strlit("/latest/dynamic/instance-identity/");
    reveal_strlit("/latest/dynamic/instance-identity/pkcs7");
    reveal_strlit("/latest/dynamic/instance-identity/document");
    reveal_strlit("/latest/dynamic/instance-identity/signature");
    reveal_strlit("/latest/dynamic/instance-identity/rsa2048");
    reveal_strlit("pkcs7");
    reveal_strlit("document");
    reveal_strlit("signature");
    reveal_strlit("rsa2048");
    let root = "/latest/dynamic/instance-identity/"@;
    assert(root + "pkcs7"@ =~= "/latest/dynamic/instance-identity/pkcs7"@);
    assert(root + "document"@ =~= "/latest/dynamic/instance-identity/document"@);
    assert(root + "signature"@ =~= "/latest/dynamic/instance-identity/signature"@);
    assert(root + "rsa2048"@ =~= "/latest/dynamic/instance-identity/rsa2048"@);
    assert(place + root + "pkcs7"@ =~= place + (root + "pkcs7"@));
    assert(place + root + "document"@ =~= place + (root + "document"@));
    assert(place + root + "signature"@ =~= place + (root + "signature"@));
    assert(place + root + "rsa2048"@ =~= place + (root + "rsa2048"@));
}

/// The login fields of EC2 hold what was fetched, and nothing else: the document
/// without the white space around it, or the identity document in Base64 with its
/// signature.
pub proof fn law_ec2_fields(
    sig: Ec2SignatureType,
    endpoint: Option<Seq<char>>,
    texts: Seq<Seq<char>>,
)
    requires
        texts.len() == 2 || (texts.len() == 1 && sig != Ec2SignatureType::Identity),
    ensures
        sig != Ec2SignatureType::Identity ==> ec2_step(sig, endpoint, texts) == Ec2StepView::Done(
            map!["pkcs7"@ => trimmed(texts[0])],
        ),
        sig == Ec2SignatureType::Identity ==> ec2_step(sig, endpoint, texts) == Ec2StepView::Done(
            map![
                "identity"@ => base64_encoded(encode_utf8(texts[0])),
                "signature"@ => trimmed(texts[1])
            ],
        ),
{
}

/// Builds [`metadata_request`] for a path of the EC2 metadata service.
fn ec2_request(endpoint: Option<&str>, path: &str) -> (request: HttpRequest)
    ensures
        request@ == metadata_request(
            given_or(opt_str(endpoint), link_local()) + path@,
            Seq::empty(),
        ),
{
    let mut url = choose_text(endpoint, "http://169.254.169.254");
    url.append(path);
    let headers: Vec<(String, String)> = Vec::new();
    assert(pair_views(headers@) =~= Seq::empty());
    HttpRequest { method: Method::Get, url, headers, body: None, timeout_secs: Some(10) }
}

/// The metadata of an EC2 instance for the given signature type, step by step.
///
/// `texts` are the texts that were read so far. The last step gives the login
/// fields for Vault AWS auth.
pub fn get_ec2_metadata(
    sig: Ec2SignatureType,
    endpoint: Option<&str>,
    texts: &Vec<String>,
) -> (step: Ec2Step)
    ensures
        step@ == ec2_step(sig, opt_str(endpoint), text_views(texts@)),
{
    if texts.len() == 0 {
        let path = match sig {
            Ec2SignatureType::Pkcs7 => "/latest/dynamic/instance-identity/pkcs7",
            Ec2SignatureType::Identity => "/latest/dynamic/instance-identity/document",
            Ec2SignatureType::Rsa2048 => "/latest/dynamic/instance-identity/rsa2048",
        };
        return Ec2Step::Fetch(ec2_request(endpoint, path));
    }
    let mut fields: StringMap<String> = StringMap::new();
    match sig {
        Ec2SignatureType::Identity => {
            if texts.len() == 1 {
                return Ec2Step::Fetch(
                    ec2_request(endpoint, "/latest/dynamic/instance-identity/signature"),
                );
            }
            fields.insert("identity".to_owned(), base64_encode(texts[0].as_str()));
            fields.insert("signature".to_owned(), trim(texts[1].as_str()));
        },
        _ => {
            fields.insert("pkcs7".to_owned(), trim(texts[0].as_str()));
        },
    }
    assert(text_map(fields@) =~= ec2_fields(sig, text_views(texts@)));
    Ec2Step::Done(fields)
}

} // verus!
