use vaultenv::auth::AuthMethod;
use vaultenv::cloud_metadata::{AzureVmMetadata, Ec2SignatureType};
use vaultenv::http::{HttpRequest, Method, Reply, Status};
use vaultenv::json::{read_object, Json};
use vaultenv::secrets_file::Secret;
use vaultenv::string_map::StringMap;
use vaultenv::types::DuplicateBehavior;
use vaultenv::vault_api::error::is_retryable;
use vaultenv::vault_api::fetch::{
    concurrency, read_answer, read_login_answer, secret_paths, FetchOutcome,
};
use vaultenv::vault_api::login::{AuthEvent, AuthStep};
use vaultenv::vault_api::{
    deduplicate, resolve_secrets, AuthPayload, ClientToken, EngineType, MountInfo, VaultClient,
    VaultData, VaultError,
};

fn strings(pairs: &[(&str, &str)]) -> Vec<(String, String)> {
    pairs
        .iter()
        .map(|(k, v)| (k.to_string(), v.to_string()))
        .collect()
}

fn mounts(pairs: &[(&str, EngineType)]) -> MountInfo {
    MountInfo::from_map(StringMap::from_pairs(
        pairs.iter().map(|(k, v)| (k.to_string(), *v)).collect(),
    ))
}

fn secret(path: &str, key: &str, var_name: &str) -> Secret {
    Secret {
        mount: "secret".to_string(),
        path: path.to_string(),
        key: key.to_string(),
        var_name: var_name.to_string(),
    }
}

fn data(key: &str, value: Json) -> VaultData {
    VaultData(StringMap::from_pairs(vec![(key.to_string(), value)]))
}

fn answer(status: u16, body: &str) -> Reply {
    Reply::Answer {
        status: Status::new(status).unwrap(),
        body: Some(body.to_string()),
    }
}

fn client() -> VaultClient {
    VaultClient::new("localhost", 8200, false, None, 40, 9).unwrap()
}

/// The members of a body, in the order of their names.
fn members(body: &StringMap<String>) -> Vec<(String, String)> {
    let mut members = body.entries().clone();
    members.sort();
    members
}

fn login(step: AuthStep) -> (String, Vec<(String, String)>) {
    match step {
        AuthStep::Login { path, body } => (path, members(&body)),
        _ => panic!("expected a login"),
    }
}

fn failure(step: AuthStep) -> VaultError {
    match step {
        AuthStep::Failed(error) => error,
        _ => panic!("expected a failure"),
    }
}

fn done(step: AuthStep) -> VaultClient {
    match step {
        AuthStep::Done(client) => client,
        _ => panic!("expected to be done"),
    }
}

fn secret_path(engine: EngineType) -> String {
    let mi = mounts(&[("secret/", engine)]);
    mi.secret_path(&secret("foo/bar", "baz", "FOO"))
}

#[test]
fn vault_api_test_secret_path_v1() {
    assert_eq!(secret_path(EngineType::V1), "/v1/secret/foo/bar");
}

#[test]
fn vault_api_test_secret_path_v2() {
    assert_eq!(secret_path(EngineType::V2), "/v1/secret/data/foo/bar");
}

#[test]
fn data_test_secret_path_v1() {
    let mi = mounts(&[("secret/", EngineType::V1)]);
    let s = secret("foo/bar", "baz", "FOO");
    assert_eq!(mi.secret_path(&s), "/v1/secret/foo/bar");
}

#[test]
fn data_test_secret_path_v2() {
    let mi = mounts(&[("secret/", EngineType::V2)]);
    let s = secret("foo/bar", "baz", "FOO");
    assert_eq!(mi.secret_path(&s), "/v1/secret/data/foo/bar");
}

#[test]
fn vault_api_test_vault_data_v2_parsing() {
    let json = r#"{"data": {"data": {"foo": "bar"}, "metadata": {"version": 1}}}"#;
    let data = VaultData::from_response(json).unwrap();
    assert_eq!(data.0.get("foo").unwrap().as_str().unwrap(), "bar");
}

#[test]
fn vault_api_test_vault_data_v1_parsing() {
    let json = r#"{"data": {"foo": "bar"}}"#;
    let data = VaultData::from_response(json).unwrap();
    assert_eq!(data.0.get("foo").unwrap().as_str().unwrap(), "bar");
}

#[test]
fn data_test_vault_data_v2_parsing() {
    let json = r#"{ "data": { "data": { "foo": "bar" }, "metadata": { "version": 1 } } }"#;
    let data = VaultData::from_response(json).unwrap();
    assert_eq!(data.get("foo").unwrap().as_str().unwrap(), "bar");
}

#[test]
fn data_test_vault_data_v1_parsing() {
    let json = r#"{ "data": { "foo": "bar" } }"#;
    let data = VaultData::from_response(json).unwrap();
    assert_eq!(data.get("foo").unwrap().as_str().unwrap(), "bar");
}

fn resolve_one(
    held: &str,
    value: Json,
    asked: &str,
) -> Result<Vec<(String, String)>, VaultError> {
    let mi = mounts(&[]);
    let secrets = vec![secret("foo", asked, "MY_VAR")];
    let mut vault_data = StringMap::new();
    vault_data.insert("/v1/secret/foo".to_string(), data(held, value));
    resolve_secrets(&mi, &secrets, &vault_data)
}

#[test]
fn vault_api_test_resolve_secrets_ok() {
    let resolved = resolve_one("bar", Json::Text("baz".to_string()), "bar").unwrap();
    assert_eq!(resolved, vec![("MY_VAR".to_string(), "baz".to_string())]);
}

#[test]
fn vault_api_test_resolve_secrets_key_not_found() {
    assert!(matches!(
        resolve_one("bar", Json::Text("baz".to_string()), "missing"),
        Err(VaultError::KeyNotFound { .. })
    ));
}

#[test]
fn vault_api_test_resolve_secrets_wrong_type() {
    assert!(matches!(
        resolve_one("num", Json::Number("42".to_string()), "num"),
        Err(VaultError::WrongType { .. })
    ));
}

#[test]
fn resolver_test_resolve_secrets_ok() {
    let mi = MountInfo::from_map(StringMap::new());
    let secrets = vec![secret("foo", "bar", "MY_VAR")];
    let vault_data = StringMap::from_pairs(vec![(
        "/v1/secret/foo".to_string(),
        data("bar", Json::Text("baz".to_string())),
    )]);

    let resolved = resolve_secrets(&mi, &secrets, &vault_data).unwrap();
    assert_eq!(resolved, vec![("MY_VAR".to_string(), "baz".to_string())]);
}

#[test]
fn resolver_test_resolve_secrets_key_not_found() {
    let mi = MountInfo::from_map(StringMap::new());
    let secrets = vec![secret("foo", "missing", "MY_VAR")];
    let vault_data = StringMap::from_pairs(vec![(
        "/v1/secret/foo".to_string(),
        data("bar", Json::Text("baz".to_string())),
    )]);

    assert!(matches!(
        resolve_secrets(&mi, &secrets, &vault_data),
        Err(VaultError::KeyNotFound { .. })
    ));
}

#[test]
fn resolver_test_resolve_secrets_wrong_type() {
    let mi = MountInfo::from_map(StringMap::new());
    let secrets = vec![secret("foo", "num", "MY_VAR")];
    let vault_data = StringMap::from_pairs(vec![(
        "/v1/secret/foo".to_string(),
        data("num", Json::Number("42".to_string())),
    )]);

    assert!(matches!(
        resolve_secrets(&mi, &secrets, &vault_data),
        Err(VaultError::WrongType { .. })
    ));
}

#[test]
fn vault_api_test_deduplicate_error() {
    let vars = strings(&[("FOO", "a"), ("FOO", "b")]);
    assert!(matches!(
        deduplicate(vars, DuplicateBehavior::Error),
        Err(VaultError::DuplicateVar(name)) if name == "FOO"
    ));
}

#[test]
fn vault_api_test_deduplicate_overwrite() {
    let vars = strings(&[("FOO", "a"), ("FOO", "b")]);
    let result = deduplicate(vars, DuplicateBehavior::Overwrite).unwrap();
    assert_eq!(result.len(), 1);
    assert_eq!(result[0], ("FOO".to_string(), "b".to_string()));
}

#[test]
fn resolver_test_deduplicate_error() {
    let vars = vec![
        ("FOO".to_string(), "a".to_string()),
        ("FOO".to_string(), "b".to_string()),
    ];
    assert!(matches!(
        deduplicate(vars, DuplicateBehavior::Error),
        Err(VaultError::DuplicateVar(name)) if name == "FOO"
    ));
}

#[test]
fn resolver_test_deduplicate_overwrite() {
    let vars = vec![
        ("FOO".to_string(), "a".to_string()),
        ("FOO".to_string(), "b".to_string()),
    ];
    let result = deduplicate(vars, DuplicateBehavior::Overwrite).unwrap();
    assert_eq!(result.len(), 1);
    assert_eq!(result[0], ("FOO".to_string(), "b".to_string()));
}

#[test]
fn test_client_new_parses_base_url() {
    let client = VaultClient::new("localhost", 8200, false, None, 40, 9).unwrap();
    assert_eq!(client.base_url().as_str(), "http://localhost:8200/");
    assert!(client.token().is_none());
}

#[test]
fn test_client_with_token() {
    let client = VaultClient::new("localhost", 8200, false, None, 40, 9).unwrap();
    let client2 = client.with_token("s.abc123".to_string());
    assert_eq!(client2.token(), Some("s.abc123"));
}

#[test]
fn test_client_with_host() {
    let client = VaultClient::new("old.example.com", 8200, false, None, 40, 9).unwrap();
    let client2 = client.with_host("vault.example.com").unwrap();
    assert_eq!(client2.base_url().as_str(), "http://vault.example.com:8200/");
    assert_eq!(client2.token(), client.token());
}

#[test]
fn test_client_with_port() {
    let client = VaultClient::new("localhost", 8200, false, None, 40, 9).unwrap();
    let client2 = client.with_port(8300).unwrap();
    assert_eq!(client2.base_url().as_str(), "http://localhost:8300/");
}

#[test]
fn test_client_with_tls_toggle() {
    let client = VaultClient::new("vault.example.com", 8200, false, None, 40, 9).unwrap();
    let https = client.with_tls(true).unwrap();
    assert_eq!(https.base_url().as_str(), "https://vault.example.com:8200/");
    let http = https.with_tls(false).unwrap();
    assert_eq!(http.base_url().as_str(), "http://vault.example.com:8200/");
}

#[test]
fn test_client_with_retry_base_delay() {
    let client = VaultClient::new("localhost", 8200, false, None, 40, 9).unwrap();
    let client2 = client.with_retry_base_delay(100);
    assert_eq!(client2.base_url(), client.base_url());
    assert_eq!(client2.token(), client.token());
    assert_eq!(client2.retry_policy().base_delay_ms, 100);
    assert_eq!(client2.retry_policy().attempts, 9);
}

#[test]
fn test_client_with_retry_attempts() {
    let client = VaultClient::new("localhost", 8200, false, None, 40, 9).unwrap();
    let client2 = client.with_retry_attempts(3);
    assert_eq!(client2.base_url(), client.base_url());
    assert_eq!(client2.token(), client.token());
    assert_eq!(client2.retry_policy().base_delay_ms, 40);
    assert_eq!(client2.retry_policy().attempts, 3);
}

#[test]
fn test_builder_chain_preserves_token() {
    let client = VaultClient::new("localhost", 8200, false, Some("tok".into()), 40, 9).unwrap();
    let client2 = client.with_host("other").unwrap().with_port(8300).unwrap();
    assert_eq!(client2.token(), Some("tok"));
    assert_eq!(client2.base_url().as_str(), "http://other:8300/");
}

#[test]
fn json_is_read_as_it_is_written() {
    let object = read_object(
        r#" {"n": null, "b": true, "i": 42, "f": -1.5, "s": "xé\n", "a": [1, "2"], "o": {"k": "v", "k": "w"}} tail"#,
    )
    .unwrap();
    let get = |key: &str| object.members.get(key).unwrap().clone();
    assert_eq!(object.members.len(), 7);
    assert_eq!(get("n"), Json::Null);
    assert_eq!(get("b"), Json::Bool(true));
    assert_eq!(get("i"), Json::Number("42".to_string()));
    assert_eq!(get("f"), Json::Number("-1.5".to_string()));
    assert_eq!(get("s").as_str(), Some("xé\n"));
    assert_eq!(
        get("a"),
        Json::Array(vec![Json::Number("1".to_string()), Json::Text("2".to_string())])
    );
    assert_eq!(
        get("o"),
        Json::Object(vec![("k".to_string(), Json::Text("w".to_string()))])
    );
    assert_eq!(get("o").as_str(), None);
    let trailing = object.trailing.unwrap();
    assert!(trailing.starts_with("trailing characters"), "{trailing}");
    let end = read_object("{} \n").unwrap();
    assert!(end.members.is_empty());
    assert_eq!(end.trailing, None);
}

#[test]
fn json_that_is_no_object_is_refused() {
    for text in ["", "[]", "3", "{\"a\": }", "{\"a\": 1"] {
        assert!(read_object(text).is_err(), "{text}");
    }
}

#[test]
fn replies_without_data_are_refused() {
    for text in ["{}", r#"{"data": 3}"#, r#"{"data": null}"#, r#"{"other": {}}"#] {
        let reason = VaultData::from_response(text).unwrap_err();
        assert_eq!(reason, "missing 'data' field in Vault response");
    }
    assert!(VaultData::from_response("{").is_err());
    let trailing = VaultData::from_response(r#"{"data": {}} x"#).unwrap_err();
    assert!(trailing.starts_with("trailing characters"), "{trailing}");
}

#[test]
fn inner_data_counts_only_as_an_object() {
    let outer = VaultData::from_response(r#"{"data": {"data": "text", "k": "v"}}"#).unwrap();
    assert_eq!(outer.get("data").unwrap().as_str(), Some("text"));
    assert_eq!(outer.get("k").unwrap().as_str(), Some("v"));
    let inner = VaultData::from_response(r#"{"data": {"data": {}, "k": "v"}}"#).unwrap();
    assert!(inner.0.is_empty());
}

#[test]
fn mounts_are_read_from_their_descriptions() {
    let info = MountInfo::from_response(
        r#"{
            "secret/": {"type": "kv", "options": {"version": "2"}, "accessor": "kv_1"},
            "old/": {"type": "kv", "options": {"version": "1"}},
            "sys/": {"type": "system", "options": {"version": "2"}},
            "odd/": {"type": "kv", "options": {"version": "3"}},
            "bare/": {"type": "kv", "options": null},
            "list/": ["kv", ["2"]],
            "request_id": "abc"
        }"#,
    )
    .unwrap();
    assert_eq!(info.engine_type("secret"), EngineType::V2);
    assert_eq!(info.engine_type("old"), EngineType::V1);
    assert_eq!(info.engine_type("list"), EngineType::V2);
    for mount in ["sys", "odd", "bare", "request_id", "unknown"] {
        assert_eq!(info.engine_type(mount), EngineType::V1);
    }
    assert!(MountInfo::from_response("[]").is_err());
    assert!(MountInfo::from_response("{} {}").is_err());
}

#[test]
fn errors_say_what_happened() {
    let cases = [
        (VaultError::SecretNotFound("p".into()), "secret not found: p"),
        (
            VaultError::KeyNotFound {
                path: "/v1/a\"b".into(),
            },
            "key not found for secret \"/v1/a\\\"b\"",
        ),
        (
            VaultError::WrongType { path: "/v1/a".into() },
            "key is not a string for secret \"/v1/a\"",
        ),
        (VaultError::BadRequest("b".into()), "bad request: b"),
        (
            VaultError::Forbidden,
            "forbidden: the provided token is invalid or expired",
        ),
        (
            VaultError::BadJson {
                body: "b".into(),
                msg: "m".into(),
            },
            "received bad JSON from Vault: m. Response was: b",
        ),
        (VaultError::ServerError("b".into()), "internal Vault error: b"),
        (VaultError::ServerUnavailable("b".into()), "Vault is unavailable: b"),
        (VaultError::ServerUnreachable("r".into()), "server unreachable: r"),
        (VaultError::InvalidUrl("r".into()), "invalid URL: r"),
        (VaultError::DuplicateVar("N".into()), "duplicate environment variable: N"),
        (
            VaultError::Unspecified {
                status: 502,
                body: "b".into(),
            },
            "unknown error (status 502): b",
        ),
        (
            VaultError::KubernetesJwtFailed("r".into()),
            "failed to read Kubernetes JWT: r",
        ),
        (
            VaultError::KubernetesJwtInvalidUtf8,
            "Kubernetes JWT is not valid UTF-8",
        ),
        (
            VaultError::CloudMetadataFailed("r".into()),
            "cloud metadata fetch failed: r",
        ),
    ];
    for (error, message) in cases {
        assert_eq!(error.message(), message);
    }
}

#[test]
fn statuses_stand_for_errors() {
    let cases = [
        (400, VaultError::BadRequest("b".into()), false),
        (403, VaultError::Forbidden, false),
        (404, VaultError::SecretNotFound("/v1/p".into()), false),
        (500, VaultError::ServerError("b".into()), true),
        (503, VaultError::ServerUnavailable("b".into()), true),
        (
            204,
            VaultError::Unspecified {
                status: 204,
                body: "b".into(),
            },
            true,
        ),
        (
            502,
            VaultError::Unspecified {
                status: 502,
                body: "b".into(),
            },
            true,
        ),
    ];
    for (status, error, retry) in cases {
        assert_eq!(read_answer("/v1/p", answer(status, "b")), Err(error.clone()));
        assert_eq!(is_retryable(&error), retry);
        assert_eq!(
            read_login_answer(answer(status, "b")),
            Err(VaultError::ServerError("b".into()))
        );
    }
    assert_eq!(read_answer("/v1/p", answer(200, "b")), Ok("b".to_string()));
    assert_eq!(read_login_answer(answer(200, "b")), Ok("b".to_string()));
    let unreachable = VaultError::ServerUnreachable("refused".into());
    assert_eq!(
        read_answer("/v1/p", Reply::Unreachable("refused".into())),
        Err(unreachable.clone())
    );
    assert!(is_retryable(&unreachable));
    let unreadable = Reply::Answer {
        status: Status::new(500).unwrap(),
        body: None,
    };
    assert_eq!(
        read_answer("/v1/p", unreadable),
        Err(VaultError::ServerError("(unreadable body)".into()))
    );
    assert!(is_retryable(&VaultError::BadJson {
        body: "b".into(),
        msg: "m".into()
    }));
}

#[test]
fn status_codes_have_three_digits() {
    assert_eq!(Status::new(99), None);
    assert_eq!(Status::new(1000), None);
    assert_eq!(Status::new(404).unwrap().text(), "404 Not Found");
    assert_eq!(Status::new(799).unwrap().text(), "799 <unknown status code>");
    assert!(Status::new(299).unwrap().is_success());
    assert!(!Status::new(300).unwrap().is_success());
}

fn headers(request: &HttpRequest) -> Vec<(&str, &str)> {
    request
        .headers
        .iter()
        .map(|(k, v)| (k.as_str(), v.as_str()))
        .collect()
}

#[test]
fn authenticated_requests_carry_the_token() {
    let client = client().with_token("my-test-token".into());
    let request = client.mount_info_request().unwrap();
    assert_eq!(request.method, Method::Get);
    assert_eq!(request.url, "http://localhost:8200/v1/sys/mounts");
    assert_eq!(
        headers(&request),
        vec![("x-vault-request", "true"), ("x-vault-token", "my-test-token")]
    );
    assert!(request.body.is_none());
    assert_eq!(request.timeout_secs, None);
    let login = client
        .try_request(Method::Post, "/v1/auth/github/login", false, Some(StringMap::new()))
        .unwrap();
    assert_eq!(headers(&login), vec![("x-vault-request", "true")]);
    assert!(login.body.is_some());
    let bare = VaultClient::new("localhost", 8200, false, None, 40, 9).unwrap();
    let unauthenticated = bare.secret_request("/v1/secret/data/a").unwrap();
    assert_eq!(headers(&unauthenticated), vec![("x-vault-request", "true")]);
}

#[test]
fn paths_are_joined_as_url_defines_it() {
    let client = client();
    let request = client.secret_request("/v1/secret/a b/../c?d").unwrap();
    assert_eq!(request.url, "http://localhost:8200/v1/secret/c?d");
    assert!(client.secret_request("http://[").is_none());
    let same = client.request(Method::Get, "/v1/secret/é", true, None);
    assert_eq!(same.url, "http://localhost:8200/v1/secret/%C3%A9");
}

#[test]
fn known_ports_are_left_out_and_kept_in_mind() {
    let http = VaultClient::new("vault.example.com", 80, false, None, 40, 9).unwrap();
    assert_eq!(http.base_url().as_str(), "http://vault.example.com/");
    let https = http.with_tls(true).unwrap();
    assert_eq!(https.base_url().as_str(), "https://vault.example.com:80/");
    let known = https.with_port(443).unwrap();
    assert_eq!(known.base_url().as_str(), "https://vault.example.com/");
    assert_eq!(known.base_url().port, Some(443));
}

#[test]
fn addresses_survive_the_builders() {
    for host in ["127.0.0.1", "[::1]", "xn--bcher-kva.example", "a_b.example"] {
        let client = VaultClient::new(host, 8200, false, None, 40, 9).unwrap();
        assert_eq!(client.base_url().host.as_deref(), Some(host));
        let moved = client.with_port(1).unwrap().with_tls(true).unwrap();
        assert_eq!(moved.base_url().host.as_deref(), Some(host));
        assert_eq!(moved.base_url().port, Some(1));
        assert_eq!(moved.base_url().scheme, "https");
    }
    let named = VaultClient::new("Bücher.example", 8200, false, None, 40, 9).unwrap();
    assert_eq!(named.base_url().host.as_deref(), Some("xn--bcher-kva.example"));
}

#[test]
fn a_host_with_a_path_loses_the_port() {
    let cut = client().with_host("other/path").unwrap();
    assert_eq!(cut.base_url().as_str(), "http://other/path:8200");
    assert_eq!(cut.base_url().port, Some(80));
}

#[test]
fn impossible_hosts_are_refused() {
    for host in ["", "a b", "256.1.1.1", "a:1"] {
        let error = VaultClient::new(host, 8200, true, None, 40, 9).unwrap_err();
        assert!(matches!(error, VaultError::InvalidUrl(_)), "{host}");
    }
    assert_eq!(
        client().with_host("").unwrap_err(),
        VaultError::InvalidUrl("empty host".into())
    );
}

#[test]
fn no_authentication_keeps_the_client() {
    let client = VaultClient::new("localhost", 8200, false, Some("existing".into()), 40, 9).unwrap();
    let same = done(client.authenticate(&AuthMethod::Unauthenticated, None, AuthEvent::Start));
    assert_eq!(same.token(), Some("existing"));
    assert_eq!(same.base_url(), client.base_url());
}

#[test]
fn a_token_is_used_directly() {
    let method = AuthMethod::VaultToken {
        token: "direct-token".to_string(),
    };
    let client = done(client().authenticate(&method, None, AuthEvent::Start));
    assert_eq!(client.token(), Some("direct-token"));
}

#[test]
fn logins_with_credentials() {
    let cases = [
        (
            AuthMethod::GitHub("ghp_xxx".into()),
            "/v1/auth/github/login",
            strings(&[("token", "ghp_xxx")]),
        ),
        (
            AuthMethod::AppRole {
                role_id: "role-123".into(),
                secret_id: "secret-456".into(),
            },
            "/v1/auth/approle/login",
            strings(&[("role_id", "role-123"), ("secret_id", "secret-456")]),
        ),
        (
            AuthMethod::Ldap {
                username: "alice".into(),
                password: "p@ss".into(),
            },
            "/v1/auth/ldap/login/alice",
            strings(&[("password", "p@ss")]),
        ),
        (
            AuthMethod::Okta {
                username: "alice".into(),
                password: "p@ss".into(),
            },
            "/v1/auth/okta/login/alice",
            strings(&[("password", "p@ss")]),
        ),
        (
            AuthMethod::Jwt {
                role: "ci-role".into(),
                token: "id-jwt-abc".into(),
            },
            "/v1/auth/jwt/login",
            strings(&[("jwt", "id-jwt-abc"), ("role", "ci-role")]),
        ),
    ];
    for (method, path, body) in cases {
        assert_eq!(
            login(client().authenticate(&method, None, AuthEvent::Start)),
            (path.to_string(), body)
        );
    }
}

#[test]
fn logins_go_to_the_given_backend() {
    let method = AuthMethod::Jwt {
        role: "ci-role".into(),
        token: "id-jwt-xyz".into(),
    };
    let (path, _) = login(client().authenticate(&method, Some("oidc"), AuthEvent::Start));
    assert_eq!(path, "/v1/auth/oidc/login");
}

#[test]
fn a_login_ends_with_a_token_or_an_error() {
    let method = AuthMethod::GitHub("ghp_xxx".into());
    let with = done(client().authenticate(
        &method,
        Some("github"),
        AuthEvent::LoggedIn(Ok("gh-token-123".into())),
    ));
    assert_eq!(with.token(), Some("gh-token-123"));
    let error = VaultError::ServerError("forbidden".into());
    let without = failure(client().authenticate(
        &method,
        Some("github"),
        AuthEvent::LoggedIn(Err(error.clone())),
    ));
    assert_eq!(without, error);
    assert!(without.message().contains("forbidden"));
}

#[test]
fn login_answers_are_read() {
    let token = ClientToken {
        auth: AuthPayload {
            client_token: "s.abc123".to_string(),
        },
    };
    assert_eq!(
        client().login_token("{}".to_string(), Ok(token)),
        Ok("s.abc123".to_string())
    );
    assert_eq!(
        client().login_token("{}".to_string(), Err("missing field `auth`".to_string())),
        Err(VaultError::BadJson {
            body: "{}".into(),
            msg: "missing field `auth`".into(),
        })
    );
}

#[test]
fn kubernetes_reads_the_service_account() {
    let method = AuthMethod::Kubernetes { role: "pod".into() };
    let client = client();
    assert!(matches!(
        client.authenticate(&method, None, AuthEvent::Start),
        AuthStep::ReadKubernetesJwt
    ));
    let read = AuthEvent::KubernetesJwt(Ok("é.b".as_bytes().to_vec()));
    assert_eq!(
        login(client.authenticate(&method, None, read)),
        (
            "/v1/auth/kubernetes/login".to_string(),
            strings(&[("jwt", "é.b"), ("role", "pod")])
        )
    );
    let invalid = AuthEvent::KubernetesJwt(Ok(vec![0xff]));
    assert_eq!(
        failure(client.authenticate(&method, None, invalid)),
        VaultError::KubernetesJwtInvalidUtf8
    );
    let unread = AuthEvent::KubernetesJwt(Err("denied".into()));
    assert_eq!(
        failure(client.authenticate(&method, None, unread)),
        VaultError::KubernetesJwtFailed("denied".into())
    );
}

#[test]
fn azure_fetches_a_token_and_metadata() {
    let client = client();
    let method = AuthMethod::Azure {
        role: "web-role".into(),
        resource: None,
    };
    match client.authenticate(&method, None, AuthEvent::Start) {
        AuthStep::FetchAzureJwt { resource } => {
            assert_eq!(resource, "https://management.azure.com/")
        }
        _ => panic!("expected to fetch a token"),
    }
    let given = AuthMethod::Azure {
        role: "web-role".into(),
        resource: Some("api://x".into()),
    };
    assert!(matches!(
        client.authenticate(&given, None, AuthEvent::Start),
        AuthStep::FetchAzureJwt { resource } if resource == "api://x"
    ));
    assert!(matches!(
        client.authenticate(&method, None, AuthEvent::AzureJwt(Ok("msi".into()))),
        AuthStep::FetchAzureVm { jwt } if jwt == "msi"
    ));
    let metadata = AzureVmMetadata {
        name: "vm-01".into(),
        vm_scale_set_name: "".into(),
        subscription_id: "sub-123".into(),
        resource_group_name: "rg-01".into(),
    };
    let event = AuthEvent::AzureVm {
        jwt: "msi".into(),
        metadata: Ok(metadata),
    };
    assert_eq!(
        login(client.authenticate(&method, Some("azure"), event)),
        (
            "/v1/auth/azure/login".to_string(),
            strings(&[
                ("jwt", "msi"),
                ("resource_group_name", "rg-01"),
                ("role", "web-role"),
                ("subscription_id", "sub-123"),
                ("vm_name", "vm-01"),
                ("vmss_name", ""),
            ])
        )
    );
    assert_eq!(
        failure(client.authenticate(&method, None, AuthEvent::AzureJwt(Err("out".into())))),
        VaultError::CloudMetadataFailed("out".into())
    );
    let event = AuthEvent::AzureVm {
        jwt: "msi".into(),
        metadata: Err("out".into()),
    };
    assert_eq!(
        failure(client.authenticate(&method, None, event)),
        VaultError::CloudMetadataFailed("out".into())
    );
}

#[test]
fn gce_tokens_are_for_the_vault_and_the_role() {
    let client = client();
    let method = AuthMethod::Gcp {
        role: "web-role".into(),
    };
    assert!(matches!(
        client.authenticate(&method, None, AuthEvent::Start),
        AuthStep::FetchGceJwt { audience } if audience == "http://localhost:8200/vault/web-role"
    ));
    assert_eq!(
        login(client.authenticate(&method, None, AuthEvent::GceJwt(Ok("gce-jwt-123".into())))),
        (
            "/v1/auth/gcp/login".to_string(),
            strings(&[("jwt", "gce-jwt-123"), ("role", "web-role")])
        )
    );
    assert_eq!(
        failure(client.authenticate(&method, None, AuthEvent::GceJwt(Err("out".into())))),
        VaultError::CloudMetadataFailed("out".into())
    );
}

#[test]
fn ec2_logins_have_a_nonce() {
    let client = client();
    let method = AuthMethod::AwsEc2 {
        role: "web-role".into(),
        signature_type: Ec2SignatureType::Rsa2048,
    };
    assert!(matches!(
        client.authenticate(&method, None, AuthEvent::Start),
        AuthStep::FetchEc2Metadata {
            signature_type: Ec2SignatureType::Rsa2048
        }
    ));
    let fields = || {
        AuthEvent::Ec2Metadata(Ok(StringMap::from_pairs(strings(&[(
            "pkcs7",
            "pkcs7-payload",
        )]))))
    };
    assert_eq!(
        login(client.authenticate_with_nonce(&method, None, fields(), "n")),
        (
            "/v1/auth/aws/login".to_string(),
            strings(&[("nonce", "n"), ("pkcs7", "pkcs7-payload"), ("role", "web-role")])
        )
    );
    let (_, first) = login(client.authenticate(&method, None, fields()));
    let (_, second) = login(client.authenticate(&method, None, fields()));
    assert_eq!(first[0].0, "nonce");
    let nonce: Vec<char> = first[0].1.chars().collect();
    assert_eq!(nonce.len(), 36);
    for (i, c) in nonce.iter().enumerate() {
        match i {
            8 | 13 | 18 | 23 => assert_eq!(*c, '-'),
            14 => assert_eq!(*c, '4'),
            19 => assert!("89ab".contains(*c)),
            _ => assert!(c.is_ascii_digit() || ('a'..='f').contains(c)),
        }
    }
    assert_ne!(first[0].1, second[0].1);
    assert_eq!(
        failure(client.authenticate(&method, None, AuthEvent::Ec2Metadata(Err("out".into())))),
        VaultError::CloudMetadataFailed("out".into())
    );
}

#[test]
fn fields_of_ec2_prevail_over_the_role() {
    let method = AuthMethod::AwsEc2 {
        role: "web-role".into(),
        signature_type: Ec2SignatureType::Pkcs7,
    };
    let fields = StringMap::from_pairs(strings(&[("role", "other"), ("nonce", "old")]));
    let event = AuthEvent::Ec2Metadata(Ok(fields));
    assert_eq!(
        login(client().authenticate_with_nonce(&method, None, event, "n")).1,
        strings(&[("nonce", "n"), ("role", "other")])
    );
}

#[test]
fn events_of_other_methods_start_anew() {
    let method = AuthMethod::GitHub("t".into());
    let (path, _) = login(client().authenticate(&method, None, AuthEvent::GceJwt(Ok("j".into()))));
    assert_eq!(path, "/v1/auth/github/login");
}

#[test]
fn mount_info_is_discovered() {
    let info = client()
        .get_mount_info(answer(
            200,
            r#"{"secret/": {"type": "kv", "options": {"version": "2"}}}"#,
        ))
        .unwrap();
    assert_eq!(
        info.secret_path(&secret("foo/bar", "baz", "FOO")),
        "/v1/secret/data/foo/bar"
    );
    assert_eq!(
        client().get_mount_info(answer(404, "")).unwrap_err(),
        VaultError::SecretNotFound("/v1/sys/mounts".into())
    );
    assert!(matches!(
        client().get_mount_info(answer(200, "oops")),
        Err(VaultError::BadJson { body, .. }) if body == "oops"
    ));
}

#[test]
fn a_secret_is_read_from_its_reply() {
    let mi = mounts(&[("secret/", EngineType::V2)]);
    let asked = secret("app/config", "api_key", "API_KEY");
    let body = r#"{"data": {"data": {"api_key": "shh-secret"}}}"#;
    let data = client().get_secret(&mi, &asked, answer(200, body)).unwrap();
    assert_eq!(data.0.get("api_key").unwrap().as_str().unwrap(), "shh-secret");
    let error = client().get_secret(&mi, &asked, answer(404, "not found")).unwrap_err();
    assert_eq!(
        error,
        VaultError::SecretNotFound("/v1/secret/data/app/config".into())
    );
    assert!(error.message().contains("not found"));
}

#[test]
fn secrets_are_collected_by_path() {
    let mi = mounts(&[("secret/", EngineType::V2)]);
    let secrets = vec![secret("a", "key", "A"), secret("b", "key", "B"), secret("a", "x", "C")];
    let paths = secret_paths(&mi, &secrets);
    assert_eq!(
        paths,
        vec!["/v1/secret/data/a", "/v1/secret/data/b", "/v1/secret/data/a"]
    );
    let outcomes = paths
        .into_iter()
        .enumerate()
        .map(|(i, path)| FetchOutcome::Finished {
            path,
            data: Ok(data("key", Json::Text(format!("value-{i}")))),
        })
        .collect();
    let store = client().get_secrets(outcomes).unwrap();
    assert_eq!(store.len(), 2);
    let value = |path: &str| store.get(path).unwrap().get("key").unwrap().as_str().unwrap();
    assert_eq!(value("/v1/secret/data/a"), "value-2");
    assert_eq!(value("/v1/secret/data/b"), "value-1");
    assert_eq!(client().get_secrets(vec![]).unwrap().len(), 0);
}

#[test]
fn the_first_failure_is_reported() {
    let fine = || FetchOutcome::Finished {
        path: "/v1/a".to_string(),
        data: Ok(VaultData(StringMap::new())),
    };
    let forbidden = || FetchOutcome::Finished {
        path: "/v1/b".to_string(),
        data: Err(VaultError::Forbidden),
    };
    let broken = || FetchOutcome::Panicked("task 7 panicked".to_string());
    assert_eq!(
        client().get_secrets(vec![fine(), forbidden(), broken()]).unwrap_err(),
        VaultError::Forbidden
    );
    assert_eq!(
        client().get_secrets(vec![fine(), broken(), forbidden()]).unwrap_err(),
        VaultError::ServerError("concurrent task panicked: task 7 panicked".into())
    );
}

#[test]
fn zero_stands_for_no_limit() {
    assert_eq!(concurrency(0, 1000), 1000);
    assert_eq!(concurrency(8, 1000), 8);
}

#[test]
fn missing_secrets_are_reported_first() {
    let mi = mounts(&[("secret/", EngineType::V2)]);
    let secrets = vec![secret("a", "k", "A"), secret("b", "k", "B")];
    assert_eq!(
        resolve_secrets(&mi, &secrets, &StringMap::new()),
        Err(VaultError::SecretNotFound("/v1/secret/data/a".into()))
    );
}

#[test]
fn duplicates_are_kept_or_overwritten() {
    let vars = || strings(&[("A", "1"), ("B", "2"), ("A", "3"), ("C", "4"), ("B", "5")]);
    assert_eq!(
        deduplicate(vars(), DuplicateBehavior::Keep).unwrap(),
        strings(&[("A", "1"), ("B", "2"), ("C", "4")])
    );
    assert_eq!(
        deduplicate(vars(), DuplicateBehavior::Overwrite).unwrap(),
        strings(&[("A", "3"), ("B", "5"), ("C", "4")])
    );
    assert_eq!(
        deduplicate(vars(), DuplicateBehavior::Error),
        Err(VaultError::DuplicateVar("A".into()))
    );
}

#[test]
fn distinct_names_are_left_alone() {
    let vars = || strings(&[("B", "1"), ("A", "1")]);
    for behavior in [
        DuplicateBehavior::Error,
        DuplicateBehavior::Keep,
        DuplicateBehavior::Overwrite,
    ] {
        assert_eq!(deduplicate(vars(), behavior), Ok(vars()));
    }
}
