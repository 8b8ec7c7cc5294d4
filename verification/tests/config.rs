use vaultenv::auth::AuthMethod;
use vaultenv::cloud_metadata::{Ec2SignatureType, Ec2SignatureTypeArg};
use vaultenv::config::{file_settings, read_env_file, read_env_files, ConfigError, Options};
use vaultenv::types::{DuplicateBehaviorArg, LogLevelArg};

fn make_minimal() -> Options {
    Options {
        host: "localhost".to_string(),
        port: 8200,
        addr: None,
        method: "token".to_string(),
        path: None,
        token: None,
        role: None,
        role_id: None,
        secret_id: None,
        username: None,
        password: None,
        jwt: None,
        jwt_file: None,
        resource: None,
        aws_signature_type: Ec2SignatureTypeArg(Ec2SignatureType::Pkcs7),
        secrets_file: "/dev/null".to_string(),
        cmd: "echo".to_string(),
        args: Vec::new(),
        connect_tls: true,
        validate_certs: true,
        inherit_env: true,
        inherit_env_blacklist: Vec::new(),
        retry_base_delay_ms: 40,
        retry_attempts: 9,
        log_level: LogLevelArg::default(),
        use_path: false,
        max_concurrent_requests: 8,
        duplicate_behavior: DuplicateBehaviorArg::default(),
    }
}

#[test]
fn test_resolve_addr_https() {
    let mut opts = Options {
        host: "old".to_string(),
        port: 9999,
        addr: Some("https://vault.example.com:8200".to_string()),
        ..make_minimal()
    };
    opts.resolve_addr().unwrap();
    assert_eq!(opts.host, "vault.example.com");
    assert_eq!(opts.port, 8200);
    assert!(opts.connect_tls);
}

#[test]
fn test_resolve_addr_http_defaults_port() {
    let mut opts = Options {
        host: "old".to_string(),
        port: 9999,
        addr: Some("http://vault.example.com".to_string()),
        ..make_minimal()
    };
    opts.resolve_addr().unwrap();
    assert_eq!(opts.host, "vault.example.com");
    assert_eq!(opts.port, 80);
    assert!(!opts.connect_tls);
}

#[test]
fn test_resolve_addr_rejects_path() {
    let mut opts = Options {
        addr: Some("https://vault.example.com:8200/foo".to_string()),
        ..make_minimal()
    };
    assert!(opts.resolve_addr().is_err());
}

#[test]
fn test_resolve_addr_rejects_bad_scheme() {
    let mut opts = Options {
        addr: Some("ftp://vault.example.com".to_string()),
        ..make_minimal()
    };
    assert!(opts.resolve_addr().is_err());
}

#[test]
fn test_auth_path_prefers_path() {
    let opts = Options {
        method: "jwt".to_string(),
        path: Some("oidc".to_string()),
        ..make_minimal()
    };
    assert_eq!(opts.auth_path(), "oidc");
}

#[test]
fn test_auth_path_falls_back_to_method() {
    let opts = Options {
        method: "github".to_string(),
        ..make_minimal()
    };
    assert_eq!(opts.auth_path(), "github");
}

#[test]
fn test_auth_method_token() {
    let opts = Options {
        method: "token".to_string(),
        token: Some("hvs.xxx".to_string()),
        ..make_minimal()
    };
    assert!(
        matches!(opts.auth_method(None), AuthMethod::VaultToken { token } if token == "hvs.xxx")
    );
}

#[test]
fn test_auth_method_none() {
    let opts = make_minimal();
    assert!(matches!(opts.auth_method(None), AuthMethod::Unauthenticated));
}

#[test]
fn test_auth_method_approle() {
    let opts = Options {
        method: "approle".to_string(),
        role_id: Some("role-123".to_string()),
        secret_id: Some("secret-456".to_string()),
        ..make_minimal()
    };
    match opts.auth_method(None) {
        AuthMethod::AppRole { role_id, secret_id } => {
            assert_eq!(role_id, "role-123");
            assert_eq!(secret_id, "secret-456");
        }
        other => panic!("expected AppRole, got {other:?}"),
    }
}

#[test]
fn test_auth_method_ldap() {
    let opts = Options {
        method: "ldap".to_string(),
        username: Some("alice".to_string()),
        password: Some("p@ss".to_string()),
        ..make_minimal()
    };
    match opts.auth_method(None) {
        AuthMethod::Ldap { username, password } => {
            assert_eq!(username, "alice");
            assert_eq!(password, "p@ss");
        }
        other => panic!("expected LDAP, got {other:?}"),
    }
}

#[test]
fn test_auth_method_okta() {
    let opts = Options {
        method: "okta".to_string(),
        username: Some("alice".to_string()),
        password: Some("p@ss".to_string()),
        ..make_minimal()
    };
    match opts.auth_method(None) {
        AuthMethod::Okta { username, password } => {
            assert_eq!(username, "alice");
            assert_eq!(password, "p@ss");
        }
        other => panic!("expected Okta, got {other:?}"),
    }
}

#[test]
fn test_auth_method_azure() {
    let opts = Options {
        method: "azure".to_string(),
        role: Some("web-role".to_string()),
        resource: Some("https://management.azure.com/".to_string()),
        ..make_minimal()
    };
    match opts.auth_method(None) {
        AuthMethod::Azure { role, resource } => {
            assert_eq!(role, "web-role");
            assert_eq!(resource, Some("https://management.azure.com/".to_string()));
        }
        other => panic!("expected Azure, got {other:?}"),
    }
}

#[test]
fn test_auth_method_gcp() {
    let opts = Options {
        method: "gcp".to_string(),
        role: Some("web-role".to_string()),
        ..make_minimal()
    };
    match opts.auth_method(None) {
        AuthMethod::Gcp { role } => {
            assert_eq!(role, "web-role");
        }
        other => panic!("expected GCP, got {other:?}"),
    }
}

#[test]
fn test_auth_method_aws() {
    let opts = Options {
        method: "aws".to_string(),
        role: Some("web-role".to_string()),
        aws_signature_type: Ec2SignatureTypeArg(Ec2SignatureType::Identity),
        ..make_minimal()
    };
    match opts.auth_method(None) {
        AuthMethod::AwsEc2 {
            role,
            signature_type,
        } => {
            assert_eq!(role, "web-role");
            assert_eq!(signature_type, Ec2SignatureType::Identity);
        }
        other => panic!("expected AwsEc2, got {other:?}"),
    }
}

#[test]
fn test_auth_method_jwt() {
    let opts = Options {
        method: "jwt".to_string(),
        role: Some("ci-role".to_string()),
        jwt: Some("my-jwt-token".to_string()),
        ..make_minimal()
    };
    match opts.auth_method(None) {
        AuthMethod::Jwt { role, token } => {
            assert_eq!(role, "ci-role");
            assert_eq!(token, "my-jwt-token");
        }
        other => panic!("expected Jwt, got {other:?}"),
    }
}

#[test]
fn test_auth_method_jwt_from_file() {
    let opts = Options {
        method: "jwt".to_string(),
        role: Some("ci-role".to_string()),
        jwt_file: Some("vaultenv_test_jwt_ref.txt".to_string()),
        ..make_minimal()
    };
    assert_eq!(opts.jwt_file_needed(), Some("vaultenv_test_jwt_ref.txt"));
    match opts.auth_method(Some("file-jwt-token\n")) {
        AuthMethod::Jwt { role, token } => {
            assert_eq!(role, "ci-role");
            assert_eq!(token, "file-jwt-token");
        }
        other => panic!("expected Jwt, got {other:?}"),
    }
}

#[test]
fn test_validate_missing_cmd() {
    let mut opts = make_minimal();
    opts.cmd.clear();
    assert!(opts.validate().is_err());
}

#[test]
fn without_an_address_nothing_changes() {
    let mut opts = make_minimal();
    assert_eq!(opts.resolve_addr(), Ok(()));
    assert_eq!(opts.host, "localhost");
    assert_eq!(opts.port, 8200);
    assert!(opts.connect_tls);
}

#[test]
fn refused_addresses_change_nothing_and_say_why() {
    let cases = [
        (
            "https://vault.example.com:8200/foo",
            "VAULT_ADDR 'https://vault.example.com:8200/foo' contains a non-empty path '/foo'. Only scheme://host:port is supported.",
        ),
        (
            "ftp://vault.example.com",
            "VAULT_ADDR 'ftp://vault.example.com' has unsupported scheme 'ftp'. Use http:// or https://.",
        ),
        ("vault:8200/", "VAULT_ADDR 'vault:8200/' contains a non-empty path '8200/'. Only scheme://host:port is supported."),
        ("no address", "failed to parse VAULT_ADDR: no address"),
    ];
    for (addr, message) in cases {
        let mut opts = Options {
            addr: Some(addr.to_string()),
            ..make_minimal()
        };
        let error = opts.resolve_addr().unwrap_err();
        assert_eq!(error.message(), message);
        assert_eq!(opts.host, "localhost");
        assert_eq!(opts.port, 8200);
        assert!(opts.connect_tls);
    }
}

#[test]
fn malformed_addresses_have_a_cause() {
    let mut opts = Options {
        addr: Some("http://".to_string()),
        ..make_minimal()
    };
    let error = opts.resolve_addr().unwrap_err();
    assert_eq!(error.cause(), Some("empty host"));
    assert_eq!(ConfigError::NoCommand.cause(), None);
}

#[test]
fn addresses_with_and_without_a_port() {
    let cases = [
        ("https://vault.example.com", "vault.example.com", 443, true),
        ("HTTP://Vault.Example.COM:80/", "vault.example.com", 80, false),
        ("http://[::1]:8200", "[::1]", 8200, false),
        ("http://127.0.0.1", "127.0.0.1", 80, false),
    ];
    for (addr, host, port, tls) in cases {
        let mut opts = Options {
            addr: Some(addr.to_string()),
            ..make_minimal()
        };
        opts.resolve_addr().unwrap();
        assert_eq!(opts.host, host);
        assert_eq!(opts.port, port);
        assert_eq!(opts.connect_tls, tls);
    }
}

#[test]
fn methods_need_their_fields() {
    for method in [
        "token", "github", "kubernetes", "approle", "ldap", "okta", "azure", "gcp", "aws", "jwt",
        "TOKEN", "",
    ] {
        let opts = Options {
            method: method.to_string(),
            ..make_minimal()
        };
        assert_eq!(opts.auth_method(None), AuthMethod::Unauthenticated);
    }
    let half = Options {
        method: "ldap".to_string(),
        username: Some("alice".to_string()),
        ..make_minimal()
    };
    assert_eq!(half.auth_method(None), AuthMethod::Unauthenticated);
}

#[test]
fn github_logs_in_with_the_token() {
    let opts = Options {
        method: "github".to_string(),
        token: Some("ghp_xxx".to_string()),
        ..make_minimal()
    };
    assert_eq!(opts.auth_method(None), AuthMethod::GitHub("ghp_xxx".to_string()));
}

#[test]
fn kubernetes_takes_a_jwt_where_one_is_given() {
    let plain = Options {
        method: "kubernetes".to_string(),
        role: Some("pod".to_string()),
        ..make_minimal()
    };
    assert_eq!(plain.jwt_file_needed(), None);
    assert_eq!(
        plain.auth_method(None),
        AuthMethod::Kubernetes {
            role: "pod".to_string()
        }
    );
    let given = Options {
        jwt: Some("a.b.c".to_string()),
        ..plain.clone()
    };
    assert_eq!(
        given.auth_method(None),
        AuthMethod::Jwt {
            role: "pod".to_string(),
            token: "a.b.c".to_string(),
        }
    );
    let filed = Options {
        jwt_file: Some("sa.jwt".to_string()),
        ..plain
    };
    assert_eq!(filed.jwt_file_needed(), Some("sa.jwt"));
    assert_eq!(
        filed.auth_method(Some(" d.e.f\n")),
        AuthMethod::Jwt {
            role: "pod".to_string(),
            token: "d.e.f".to_string(),
        }
    );
}

#[test]
fn a_jwt_is_preferred_to_its_file() {
    let opts = Options {
        method: "jwt".to_string(),
        role: Some("ci".to_string()),
        jwt: Some("value".to_string()),
        jwt_file: Some("file".to_string()),
        ..make_minimal()
    };
    assert_eq!(opts.jwt_file_needed(), None);
    assert_eq!(
        opts.auth_method(None),
        AuthMethod::Jwt {
            role: "ci".to_string(),
            token: "value".to_string(),
        }
    );
}

#[test]
fn validation_says_what_is_missing() {
    assert_eq!(make_minimal().validate(), Ok(()));
    let mut opts = make_minimal();
    opts.cmd.clear();
    assert_eq!(opts.validate().unwrap_err().message(), "CMD is required");
    opts.secrets_file.clear();
    assert_eq!(
        opts.validate().unwrap_err().message(),
        "--secrets-file is required"
    );
}

#[test]
fn a_given_token_is_kept() {
    let mut opts = make_minimal();
    opts.fall_back_to(None);
    assert_eq!(opts.token, None);
    opts.fall_back_to(Some("from-file".to_string()));
    assert_eq!(opts.token.as_deref(), Some("from-file"));
    opts.fall_back_to(Some("other".to_string()));
    assert_eq!(opts.token.as_deref(), Some("from-file"));
}

#[test]
fn environment_files_hold_settings_and_comments() {
    let entries = read_env_file(
        "# comment\n\nVAULT_HOST = vault.example.com \r\n  # more\nVAULTENV_PATH=a=b\nnothing\n=x\nEMPTY=",
    );
    let expected: Vec<(String, String)> = [
        ("VAULT_HOST", "vault.example.com"),
        ("VAULTENV_PATH", "a=b"),
        ("", "x"),
        ("EMPTY", ""),
    ]
    .iter()
    .map(|(k, v)| (k.to_string(), v.to_string()))
    .collect();
    assert_eq!(entries, expected);
}

#[test]
fn unreadable_environment_files_are_skipped() {
    let files = read_env_files(vec![
        Some("A=1".to_string()),
        None,
        Some("# nothing".to_string()),
    ]);
    assert_eq!(
        files,
        vec![vec![("A".to_string(), "1".to_string())], vec![]]
    );
}

#[test]
fn environment_files_fill_in_what_is_not_given() {
    let texts = [
        "VAULT_HOST=a\nVAULT_PORT=1\nVAULT_TOKEN=file\n=x\nBAD\0NAME=x\nNUL=a\0b",
        "VAULT_PORT=2\nVAULT_PORT=3\nVAULTENV_PATH=p",
    ];
    let files = read_env_files(texts.iter().map(|text| Some(text.to_string())).collect());
    let given = vec!["VAULT_TOKEN".to_string(), "HOME".to_string()];
    let expected: Vec<(String, String)> =
        [("VAULT_HOST", "a"), ("VAULT_PORT", "3"), ("VAULTENV_PATH", "p")]
            .iter()
            .map(|(k, v)| (k.to_string(), v.to_string()))
            .collect();
    assert_eq!(file_settings(&files, &given), expected);

    let odd = vec![vec![("A=B".to_string(), "x".to_string())]];
    assert_eq!(file_settings(&odd, &Vec::new()), Vec::new());
}
