//! Vault HTTP client.
//!
//! Connection setup, request building, authentication dispatch, mount info
//! discovery and secret fetching. A client is a value: it says what to send and
//! what to make of the replies, and the sending is left to the caller.

use vstd::prelude::*;
use vstd::string::*;

use crate::address::{address_text, found_again, joined_url, parsed_url, site, web_scheme};
use crate::address::{api_path, cut_short, lemma_site_len, plain_host, punycode_free};
use crate::address::{join_url, parse_url, write_address, Address, AddressView};
use crate::http::{body_view, HttpRequest, HttpRequestView, Method};
use crate::string_map::StringMap;
use crate::text::{numeral, opt_str, opt_text, pair_views, same_text};
use crate::vault_api::error::{VaultError, VaultErrorView};

verus! {

/// How often and how soon failed requests are tried again.
#[derive(Debug, Clone, Copy, PartialEq, Eq, Structural)]
pub struct RetryPolicy {
    /// How long to wait before the first new attempt, in milliseconds.
    pub base_delay_ms: u64,
    /// How many new attempts to make.
    pub attempts: u32,
}

/// Vault API client.
#[derive(Debug)]
pub struct VaultClient {
    base_url: Address,
    token: Option<String>,
    retry: RetryPolicy,
}

/// The model of a [`VaultClient`].
pub struct ClientView {
    pub base: AddressView,
    pub token: Option<Seq<char>>,
    pub retry: RetryPolicy,
}

impl View for VaultClient {
    type V = ClientView;

    closed spec fn view(&self) -> ClientView {
        ClientView { base: self.base_url@, token: opt_text(self.token), retry: self.retry }
    }
}

impl ClientView {
    /// Whether the client uses TLS.
    pub open spec fn tls(self) -> bool {
        self.base.scheme == web_scheme(true)
    }

    /// The host of the client.
    pub open spec fn host(self) -> Seq<char> {
        match self.base.host {
            Some(host) => host,
            None => "localhost"@,
        }
    }

    /// The port of the client.
    pub open spec fn port(self) -> u16 {
        match self.base.port {
            Some(port) => port,
            None => 8200,
        }
    }

    /// Whether the client talks to the root of a server whose host is of
    /// ordinary length and has no label in Punycode.
    pub open spec fn ordinary(self) -> bool {
        &&& self.base == site(self.tls(), self.host(), self.port())
        &&& self.host().len() <= 0xffff
        &&& punycode_free(self.host())
    }

    /// The client with another token.
    pub open spec fn with_token(self, token: Seq<char>) -> ClientView {
        ClientView { token: Some(token), ..self }
    }
}

/// The client for a server, or why there is none.
pub open spec fn client_for(
    tls: bool,
    host: Seq<char>,
    port: u16,
    token: Option<Seq<char>>,
    retry: RetryPolicy,
) -> Result<ClientView, VaultErrorView> {
    match parsed_url(address_text(tls, host, port)) {
        Ok(base) => Ok(ClientView { base, token, retry }),
        Err(reason) => Err(VaultErrorView::InvalidUrl(reason)),
    }
}

/// The headers of a request: that it is one to Vault, and the token where the
/// request is authenticated and the client has one.
pub open spec fn api_headers(client: ClientView, auth: bool) -> Seq<(Seq<char>, Seq<char>)> {
    let marked = seq![("x-vault-request"@, "true"@)];
    match client.token {
        Some(token) => if auth {
            marked.push(("x-vault-token"@, token))
        } else {
            marked
        },
        None => marked,
    }
}

/// A request for a path of the Vault API, which can be joined to the URL of the
/// server.
pub open spec fn api_request(
    client: ClientView,
    method: Method,
    path: Seq<char>,
    auth: bool,
    body: Option<Map<Seq<char>, Seq<char>>>,
) -> HttpRequestView {
    HttpRequestView {
        method,
        url: joined_url(client.base.text, path)->Ok_0,
        headers: api_headers(client, auth),
        body,
        timeout_secs: None,
    }
}

/// A request that is not authenticated carries no token.
pub proof fn law_no_token_unless_authenticated(client: ClientView, value: Seq<char>)
    ensures
        !api_headers(client, false).contains(("x-vault-token"@, value)),
{
    reveal_strlit("x-vault-request");
    reveal_strlit("x-vault-token");
    assert("x-vault-request"@.len() != "x-vault-token"@.len());
    let headers = api_headers(client, false);
    assert(headers.len() == 1 && headers[0].0 == "x-vault-request"@);
}

/// A request carries no token but the one of the client.
pub proof fn law_token_of_the_client(client: ClientView, auth: bool, value: Seq<char>)
    ensures
        api_headers(client, auth).contains(("x-vault-token"@, value)) <==> auth && client.token
            == Some(value),
{
    reveal_strlit("x-vault-request");
    reveal_strlit("x-vault-token");
    assert("x-vault-request"@.len() != "x-vault-token"@.len());
    let headers = api_headers(client, auth);
    assert(headers[0].0 == "x-vault-request"@);
    if auth && client.token == Some(value) {
        assert(headers[1] == ("x-vault-token"@, value));
    }
}

/// A request for a path goes to the URL of the server joined with it, by the given
/// method and with the given body. It says that it is one to Vault, and carries the
/// token of the client if and only if it is authenticated; it has no other header.
pub proof fn law_api_request(
    client: ClientView,
    method: Method,
    path: Seq<char>,
    auth: bool,
    body: Option<Map<Seq<char>, Seq<char>>>,
)
    ensures
        ({
            let request = api_request(client, method, path, auth, body);
            let marked = ("x-vault-request"@, "true"@);
            &&& request.method == method
            &&& joined_url(client.base.text, path) matches Ok(url) ==> request.url == url
            &&& request.body == body
            &&& request.timeout_secs is None
            &&& !auth || client.token is None ==> request.headers == seq![marked]
            &&& auth && client.token is Some ==> request.headers == seq![
                marked,
                ("x-vault-token"@, client.token->0),
            ]
        }),
{
}

/// A client that there is has the given token and the given retry policy, and the
/// URL that the text with its scheme, host and port is parsed as; where that text is
/// no URL, there is no client, for that reason.
pub proof fn law_client_for(
    tls: bool,
    host: Seq<char>,
    port: u16,
    token: Option<Seq<char>>,
    retry: RetryPolicy,
)
    ensures
        ({
            let text = (if tls {
                "https"@
            } else {
                "http"@
            }) + "://"@ + host + ":"@ + numeral(port as nat, 10);
            let client = client_for(tls, host, port, token, retry);
            &&& parsed_url(text) matches Ok(base) ==> client is Ok && client->Ok_0.base == base
                && client->Ok_0.token == token && client->Ok_0.retry == retry
            &&& parsed_url(text) matches Err(reason) ==> client == Err::<
                ClientView,
                VaultErrorView,
            >(VaultErrorView::InvalidUrl(reason))
        }),
{
}

/// A client uses TLS if the scheme of its URL is `https`, and has the host and the
/// port of its URL.
pub proof fn law_client_address(client: ClientView)
    ensures
        client.tls() <==> client.base.scheme == "https"@,
        client.base.host matches Some(host) ==> client.host() == host,
        client.base.port matches Some(port) ==> client.port() == port,
{
}

impl Clone for VaultClient {
    fn clone(&self) -> (copy: Self)
        ensures
            copy@ == self@,
    {
        proof {
            use_type_invariant(self);
        }
        let base_url = copy_address(&self.base_url);
        VaultClient { base_url, token: self.token.clone(), retry: self.retry }
    }
}

/// A copy of an address.
fn copy_address(address: &Address) -> (copy: Address)
    ensures
        copy@ == address@,
{
    Address {
        text: address.text.clone(),
        scheme: address.scheme.clone(),
        host: address.host.clone(),
        port: address.port,
        path: address.path.clone(),
    }
}

impl VaultClient {
    #[verifier::type_invariant]
    spec fn reached_over_the_web(self) -> bool {
        &&& self.base_url@.web()
        &&& self.base_url@.host is Some
        &&& self.base_url@.port is Some
        &&& found_again(self.base_url@.host->0)
    }

    /// The client for a server.
    fn open(
        tls: bool,
        host: &str,
        port: u16,
        token: Option<String>,
        retry: RetryPolicy,
    ) -> (client: Result<Self, VaultError>)
        ensures
            match client {
                Ok(client) => client_for(tls, host@, port, opt_text(token), retry) == Ok::<
                    ClientView,
                    VaultErrorView,
                >(client@),
                Err(error) => client_for(tls, host@, port, opt_text(token), retry) == Err::<
                    ClientView,
                    VaultErrorView,
                >(error@),
            },
            client matches Ok(client) ==> client@.tls() == tls,
            client matches Ok(client) ==> (!cut_short(host@) ==> client@.port() == port),
            plain_host(host@) ==> client is Ok && client->Ok_0@.base == site(tls, host@, port),
    {
        proof {
            reveal_strlit("http");
            reveal_strlit("https");
            assert("http"@.len() != "https"@.len());
        }
        let text = write_address(tls, host, port);
        match parse_url(text.as_str()) {
            Ok(base_url) => Ok(VaultClient { base_url, token, retry }),
            Err(reason) => Err(VaultError::InvalidUrl(reason)),
        }
    }

    /// Create a new Vault client.
    ///
    /// * `host`: e.g. `"localhost"` or `"vault.example.com"`
    /// * `port`: e.g. `8200`
    /// * `tls`: `true` for HTTPS, `false` for plain HTTP
    /// * `token`: initial Vault token (may be `None` before auth)
    /// * `retry_base_delay_ms`: base retry delay in milliseconds
    /// * `retry_attempts`: max number of retry attempts
    pub fn new(
        host: &str,
        port: u16,
        tls: bool,
        token: Option<String>,
        retry_base_delay_ms: u64,
        retry_attempts: u32,
    ) -> (client: Result<Self, VaultError>)
        ensures
            match client {
                Ok(client) => client_for(
                    tls,
                    host@,
                    port,
                    opt_text(token),
                    (RetryPolicy { base_delay_ms: retry_base_delay_ms, attempts: retry_attempts }),
                ) == Ok::<ClientView, VaultErrorView>(client@),
                Err(error) => client_for(
                    tls,
                    host@,
                    port,
                    opt_text(token),
                    (RetryPolicy { base_delay_ms: retry_base_delay_ms, attempts: retry_attempts }),
                ) == Err::<ClientView, VaultErrorView>(error@),
            },
            client matches Ok(client) ==> client@.tls() == tls,
            client matches Ok(client) ==> (!cut_short(host@) ==> client@.port() == port),
            plain_host(host@) ==> client is Ok && client->Ok_0@.base == site(tls, host@, port),
    {
        VaultClient::open(
            tls,
            host,
            port,
            token,
            RetryPolicy { base_delay_ms: retry_base_delay_ms, attempts: retry_attempts },
        )
    }

    /// The URL of the server.
    pub fn base_url(&self) -> (url: &Address)
        ensures
            url@ == self@.base,
    {
        &self.base_url
    }

    /// How failed requests are tried again.
    pub fn retry_policy(&self) -> (retry: RetryPolicy)
        ensures
            retry == self@.retry,
    {
        self.retry
    }

    /// Return the current Vault token, if any.
    pub fn token(&self) -> (token: Option<&str>)
        ensures
            opt_str(token) == self@.token,
    {
        match &self.token {
            Some(token) => Some(token.as_str()),
            None => None,
        }
    }

    /// Return a new client configured with the given token.
    pub fn with_token(&self, token: String) -> (client: Self)
        ensures
            client@ == self@.with_token(token@),
            client@.token == Some(token@),
            client@.base == self@.base,
            client@.retry == self@.retry,
    {
        proof {
            use_type_invariant(self);
        }
        VaultClient {
            base_url: copy_address(&self.base_url),
            token: Some(token),
            retry: self.retry,
        }
    }

    /// Whether the client uses TLS.
    fn uses_tls(&self) -> (tls: bool)
        ensures
            tls == self@.tls(),
    {
        same_text(self.base_url.scheme.as_str(), "https")
    }

    /// The host of the client.
    fn host_name(&self) -> (host: String)
        ensures
            host@ == self@.host(),
            found_again(host@),
    {
        proof {
            use_type_invariant(self);
        }
        match &self.base_url.host {
            Some(host) => host.clone(),
            None => "localhost".to_owned(),
        }
    }

    /// The port of the client.
    fn port_number(&self) -> (port: u16)
        ensures
            port == self@.port(),
    {
        match self.base_url.port {
            Some(port) => port,
            None => 8200,
        }
    }

    /// Return a new client pointing at a different host (port and tls preserved).
    ///
    /// The port is lost where the host goes on with a path, a query or a
    /// fragment.
    pub fn with_host(&self, host: &str) -> (client: Result<Self, VaultError>)
        ensures
            match client {
                Ok(client) => client_for(
                    self@.tls(),
                    host@,
                    self@.port(),
                    self@.token,
                    self@.retry,
                ) == Ok::<ClientView, VaultErrorView>(client@),
                Err(error) => client_for(
                    self@.tls(),
                    host@,
                    self@.port(),
                    self@.token,
                    self@.retry,
                ) == Err::<ClientView, VaultErrorView>(error@),
            },
            client matches Ok(client) ==> client@.tls() == self@.tls(),
            client matches Ok(client) ==> (!cut_short(host@) ==> client@.port() == self@.port()),
            plain_host(host@) ==> client is Ok && client->Ok_0@.base == site(
                self@.tls(),
                host@,
                self@.port(),
            ),
    {
        VaultClient::open(
            self.uses_tls(),
            host,
            self.port_number(),
            self.token.clone(),
            self.retry,
        )
    }

    /// Return a new client pointing at a different port (host and tls preserved).
    pub fn with_port(&self, port: u16) -> (client: Result<Self, VaultError>)
        ensures
            match client {
                Ok(client) => client_for(
                    self@.tls(),
                    self@.host(),
                    port,
                    self@.token,
                    self@.retry,
                ) == Ok::<ClientView, VaultErrorView>(client@),
                Err(error) => client_for(
                    self@.tls(),
                    self@.host(),
                    port,
                    self@.token,
                    self@.retry,
                ) == Err::<ClientView, VaultErrorView>(error@),
            },
            client matches Ok(client) ==> client@.base == site(self@.tls(), self@.host(), port),
            self@.host().len() <= 0xffff && punycode_free(self@.host()) ==> client is Ok,
    {
        let host = self.host_name();
        VaultClient::open(
            self.uses_tls(),
            host.as_str(),
            port,
            self.token.clone(),
            self.retry,
        )
    }

    /// Return a new client with TLS toggled (host and port preserved).
    pub fn with_tls(&self, tls: bool) -> (client: Result<Self, VaultError>)
        ensures
            match client {
                Ok(client) => client_for(
                    tls,
                    self@.host(),
                    self@.port(),
                    self@.token,
                    self@.retry,
                ) == Ok::<ClientView, VaultErrorView>(client@),
                Err(error) => client_for(
                    tls,
                    self@.host(),
                    self@.port(),
                    self@.token,
                    self@.retry,
                ) == Err::<ClientView, VaultErrorView>(error@),
            },
            client matches Ok(client) ==> client@.base == site(tls, self@.host(), self@.port()),
            self@.host().len() <= 0xffff && punycode_free(self@.host()) ==> client is Ok,
    {
        let host = self.host_name();
        VaultClient::open(
            tls,
            host.as_str(),
            self.port_number(),
            self.token.clone(),
            self.retry,
        )
    }

    /// Return a new client with updated retry base delay.
    pub fn with_retry_base_delay(&self, ms: u64) -> (client: Self)
        ensures
            client@ == (ClientView {
                retry: RetryPolicy { base_delay_ms: ms, attempts: self@.retry.attempts },
                ..self@
            }),
    {
        proof {
            use_type_invariant(self);
        }
        VaultClient {
            base_url: copy_address(&self.base_url),
            token: self.token.clone(),
            retry: RetryPolicy { base_delay_ms: ms, attempts: self.retry.attempts },
        }
    }

    /// Return a new client with updated retry max attempts.
    pub fn with_retry_attempts(&self, attempts: u32) -> (client: Self)
        ensures
            client@ == (ClientView {
                retry: RetryPolicy { base_delay_ms: self@.retry.base_delay_ms, attempts },
                ..self@
            }),
    {
        proof {
            use_type_invariant(self);
        }
        VaultClient {
            base_url: copy_address(&self.base_url),
            token: self.token.clone(),
            retry: RetryPolicy { base_delay_ms: self.retry.base_delay_ms, attempts },
        }
    }

    /// The request with the given URL.
    fn request_to(
        &self,
        method: Method,
        url: String,
        auth: bool,
        body: Option<StringMap<String>>,
    ) -> (request: HttpRequest)
        ensures
            request@ == (HttpRequestView {
                method,
                url: url@,
                headers: api_headers(self@, auth),
                body: body_view(body),
                timeout_secs: None,
            }),
    {
        let mut headers: Vec<(String, String)> = Vec::new();
        headers.push(("x-vault-request".to_owned(), "true".to_owned()));
        if auth {
            if let Some(token) = &self.token {
                headers.push(("x-vault-token".to_owned(), token.clone()));
            }
        }
        assert(pair_views(headers@) =~= api_headers(self@, auth));
        HttpRequest { method, url, headers, body, timeout_secs: None }
    }

    /// The request for a path of the Vault API.
    pub fn request(
        &self,
        method: Method,
        path: &str,
        auth: bool,
        body: Option<StringMap<String>>,
    ) -> (request: HttpRequest)
        requires
            joined_url(self@.base.text, path@) is Ok,
        ensures
            request@ == api_request(self@, method, path@, auth, body_view(body)),
    {
        let url = match join_url(self.base_url.text.as_str(), path) {
            Ok(url) => url,
            Err(reason) => {
                assert(false);
                reason
            },
        };
        self.request_to(method, url, auth, body)
    }

    /// The request for a path of the Vault API, if the path can be joined to
    /// the URL of the server. Every path under `/v1/` can be, unless it is
    /// hundreds of megabytes long.
    pub fn try_request(
        &self,
        method: Method,
        path: &str,
        auth: bool,
        body: Option<StringMap<String>>,
    ) -> (request: Option<HttpRequest>)
        ensures
            match request {
                Some(request) => joined_url(self@.base.text, path@) is Ok && request@
                    == api_request(self@, method, path@, auth, body_view(body)),
                None => joined_url(self@.base.text, path@) is Err,
            },
            self@.ordinary() && api_path(path@) && path@.len() <= 0x100_0000 ==> request is Some,
    {
        proof {
            use_type_invariant(self);
            if self@.ordinary() {
                assert(found_again(self@.host()));
                assert(parsed_url(address_text(self@.tls(), self@.host(), self@.port())) is Ok);
                lemma_site_len(self@.tls(), self@.host(), self@.port());
            }
        }
        match join_url(self.base_url.text.as_str(), path) {
            Ok(_) => Some(self.request(method, path, auth, body)),
            Err(_) => None,
        }
    }
}

} // verus!
