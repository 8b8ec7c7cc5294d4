//! URLs of servers.

use vstd::prelude::*;
use vstd::string::*;

use crate::text::{numeral, opt_text, write_numeral};

verus! {

/// A URL, taken apart.
#[derive(Debug, Clone, PartialEq, Eq)]
pub struct Address {
    /// The URL as it is written.
    pub text: String,
    /// What stands before the first colon.
    pub scheme: String,
    /// The host, where there is one.
    pub host: Option<String>,
    /// The port, or else the one that the scheme is known for.
    pub port: Option<u16>,
    /// The path.
    pub path: String,
}

/// The model of an [`Address`].
pub struct AddressView {
    pub text: Seq<char>,
    pub scheme: Seq<char>,
    pub host: Option<Seq<char>>,
    pub port: Option<u16>,
    pub path: Seq<char>,
}

impl View for Address {
    type V = AddressView;

    open spec fn view(&self) -> AddressView {
        AddressView {
            text: self.text@,
            scheme: self.scheme@,
            host: opt_text(self.host),
            port: self.port,
            path: self.path@,
        }
    }
}

impl AddressView {
    /// Whether the scheme is `http` or `https`.
    pub open spec fn web(self) -> bool {
        self.scheme == web_scheme(false) || self.scheme == web_scheme(true)
    }
}

/// The scheme of the web, with or without TLS.
pub open spec fn web_scheme(tls: bool) -> Seq<char> {
    if tls {
        "https"@
    } else {
        "http"@
    }
}

/// The port that the scheme of the web is known for.
pub open spec fn web_port(tls: bool) -> u16 {
    if tls {
        443
    } else {
        80
    }
}

/// The text in which a server is asked for by scheme, host and port.
pub open spec fn address_text(tls: bool, host: Seq<char>, port: u16) -> Seq<char> {
    web_scheme(tls) + "://"@ + host + ":"@ + numeral(port as nat, 10)
}

/// The URL of the root of a server. The port is left out of it where the
/// scheme is known for it.
pub open spec fn site(tls: bool, host: Seq<char>, port: u16) -> AddressView {
    AddressView {
        text: web_scheme(tls) + "://"@ + host + (if port == web_port(tls) {
            ""@
        } else {
            ":"@ + numeral(port as nat, 10)
        }) + "/"@,
        scheme: web_scheme(tls),
        host: Some(host),
        port: Some(port),
        path: "/"@,
    }
}

/// The URL of the root of a server is hardly longer than its host.
pub proof fn lemma_site_len(tls: bool, host: Seq<char>, port: u16)
    ensures
        site(tls, host, port).text.len() <= host.len() + 15,
{
    reveal_strlit("http");
    reveal_strlit("https");
    reveal_strlit("://");
    reveal_strlit(":");
    reveal_strlit("/");
    reveal_strlit("");
    reveal_with_fuel(numeral, 5);
    assert(numeral(port as nat, 10).len() <= 5);
}

/// Whether a host is a name of lower-case letters, digits, dashes and dots, at
/// most 253 characters long, whose last label starts with a letter, and which
/// has no label in Punycode.
pub open spec fn plain_host(host: Seq<char>) -> bool {
    &&& host.len() <= 253
    &&& forall|i: int| 0 <= i < host.len() ==> plain_host_char(#[trigger] host[i])
    &&& punycode_free(host)
    &&& exists|i: int| last_label_at(host, i) && 'a' <= #[trigger] host[i] <= 'z'
}

/// The characters of a [`plain_host`].
pub open spec fn plain_host_char(c: char) -> bool {
    'a' <= c <= 'z' || '0' <= c <= '9' || c == '-' || c == '.'
}

/// Whether the last label of a host starts at `at`.
pub open spec fn last_label_at(host: Seq<char>, at: int) -> bool {
    &&& 0 <= at < host.len()
    &&& at > 0 ==> host[at - 1] == '.'
    &&& forall|j: int| at <= j < host.len() ==> host[j] != '.'
}

/// Whether `xn--` occurs nowhere in a host.
pub open spec fn punycode_free(host: Seq<char>) -> bool {
    forall|i: int|
        0 <= i && i + 4 <= host.len() ==> #[trigger] host.subrange(i, i + 4) != "xn--"@
}

/// Whether a host holds a character that ends the host part of a URL and
/// starts its path, query or fragment.
pub open spec fn cut_short(host: Seq<char>) -> bool {
    exists|i: int|
        0 <= i < host.len() && (host[i] == '/' || host[i] == '\\' || host[i] == '?'
            || #[trigger] host[i] == '#')
}

/// What `url::Url::parse` makes of a text: the URL, or what it says of a text
/// that is none.
pub uninterp spec fn parsed_url(text: Seq<char>) -> Result<AddressView, Seq<char>>;

/// What is known of a host that a URL of the web was found to have. Asking for
/// it by name again finds the same host, if it finds any; and it finds one
/// wherever the host is of ordinary length and has no label in Punycode.
pub open spec fn found_again(host: Seq<char>) -> bool {
    forall|tls: bool, port: u16|
        #![trigger address_text(tls, host, port)]
        {
            &&& parsed_url(address_text(tls, host, port)) is Ok ==> parsed_url(
                address_text(tls, host, port),
            ) == Ok::<AddressView, Seq<char>>(site(tls, host, port))
            &&& punycode_free(host) && host.len() <= 0xffff ==> {
                &&& parsed_url(address_text(tls, host, port)) is Ok
                &&& parsed_url(site(tls, host, port).text) == Ok::<AddressView, Seq<char>>(
                    site(tls, host, port),
                )
            }
        }
}

/// `url::Url::parse`, with the parts of the URL taken by `as_str`, `scheme`,
/// `host_str`, `port_or_known_default` and `path`. The result depends on the
/// text alone. A URL of the web has a host and a port. Of a text that asks for
/// a server by scheme, host and port: a plain host is found as it is given;
/// the scheme is the given one; and so is the port, in front of an empty path,
/// unless the given host cuts the host part short. A host that was found is
/// [`found_again`].
#[verifier::external_body]
pub(crate) fn parse_url(text: &str) -> (url: Result<Address, String>)
    ensures
        match url {
            Ok(url) => parsed_url(text@) == Ok::<AddressView, Seq<char>>(url@),
            Err(reason) => parsed_url(text@) == Err::<AddressView, Seq<char>>(reason@),
        },
        url matches Ok(url) ==> (url@.web() ==> url@.host is Some && url@.port is Some
            && found_again(url@.host->0)),
        forall|tls: bool, host: Seq<char>, port: u16|
            text@ == #[trigger] address_text(tls, host, port) ==> {
                &&& plain_host(host) ==> url is Ok && url->Ok_0@ == site(tls, host, port)
                &&& url is Ok ==> url->Ok_0@.scheme == web_scheme(tls)
                &&& url is Ok && !cut_short(host) ==> url->Ok_0@.port == Some(port)
                    && url->Ok_0@.path == "/"@
            },
{
    let url = url::Url::parse(text).map_err(|e| e.to_string())?;
    Ok(
        Address {
            text: url.as_str().to_string(),
            scheme: url.scheme().to_string(),
            host: url.host_str().map(|host| host.to_string()),
            port: url.port_or_known_default(),
            path: url.path().to_string(),
        },
    )
}

/// What `url::Url::join` makes of a base URL and a reference: the text of the
/// URL, or what it says of a reference that leads to none.
pub uninterp spec fn joined_url(base: Seq<char>, reference: Seq<char>) -> Result<
    Seq<char>,
    Seq<char>,
>;

/// Whether a text starts with `/v1/`.
pub open spec fn api_path(path: Seq<char>) -> bool {
    path.len() >= 4 && path.take(4) == "/v1/"@
}

/// `url::Url::join` on the URL that the base is. The result depends on the two
/// texts alone. A path under `/v1/` can be joined to every URL of the web,
/// unless the result were longer than the 4 GB that a URL can have.
#[verifier::external_body]
pub(crate) fn join_url(base: &str, reference: &str) -> (url: Result<String, String>)
    ensures
        match url {
            Ok(url) => joined_url(base@, reference@) == Ok::<Seq<char>, Seq<char>>(url@),
            Err(reason) => joined_url(base@, reference@) == Err::<Seq<char>, Seq<char>>(reason@),
        },
        parsed_url(base@) is Ok && parsed_url(base@)->Ok_0.web() && api_path(reference@)
            && base@.len() <= 0x100_0000 && reference@.len() <= 0x100_0000 ==> url is Ok,
{
    let base = url::Url::parse(base).map_err(|e| e.to_string())?;
    let url = base.join(reference).map_err(|e| e.to_string())?;
    Ok(url.to_string())
}

/// Writes [`address_text`].
pub fn write_address(tls: bool, host: &str, port: u16) -> (text: String)
    ensures
        text@ == address_text(tls, host@, port),
{
    let mut text = if tls {
        "https".to_owned()
    } else {
        "http".to_owned()
    };
    text.append("://");
    text.append(host);
    text.append(":");
    text.append(write_numeral(port as u32, 10).as_str());
    text
}

impl Address {
    /// The URL as it is written.
    pub fn as_str(&self) -> (text: &str)
        ensures
            text@ == self@.text,
    {
        self.text.as_str()
    }
}

} // verus!
