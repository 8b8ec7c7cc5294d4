use vaultenv::auth::{resolve_jwt_file_token, resolve_token_file};
use vaultenv::auth::{AuthMethod, FileContents, TokenFileError};

/// What a token file of the given text and permissions gives.
fn token_file(content: &str, mode: u32, setting: Option<&str>) -> Result<Option<String>, String> {
    resolve_token_file(
        "/home/alice/tok",
        FileContents::Text(content.to_string()),
        Ok(0o100000 | mode),
        setting,
    )
    .map_err(|e| e.message())
}

#[test]
fn missing_file_returns_none_no_error() {
    let result = resolve_token_file(
        "/tmp/does-not-exist",
        FileContents::Missing,
        Err("No such file or directory".to_string()),
        None,
    )
    .unwrap();
    assert_eq!(result, None);
}

#[test]
fn empty_file_returns_none() {
    let result = token_file("", 0o600, None).unwrap();
    assert_eq!(result, None);
}

#[test]
fn whitespace_only_file_returns_none() {
    let result = token_file("   \n\t  \n", 0o600, None).unwrap();
    assert_eq!(result, None);
}

#[test]
fn secure_mode_0600_reads_token() {
    let result = token_file("hvs.abc123\n", 0o600, None).unwrap();
    assert_eq!(result.as_deref(), Some("hvs.abc123"));
}

#[test]
fn secure_mode_0400_reads_token() {
    let result = token_file("hvs.abc", 0o400, None).unwrap();
    assert_eq!(result.as_deref(), Some("hvs.abc"));
}

#[test]
fn group_readable_0644_is_rejected_by_default() {
    let msg = token_file("hvs.abc", 0o644, Some("0")).unwrap_err();
    assert!(msg.contains("refusing to read token"), "msg was: {msg}");
    assert!(msg.contains("chmod 600"), "msg was: {msg}");
    assert!(
        msg.contains("VAULTENV_ALLOW_INSECURE_TOKEN_FILE"),
        "msg was: {msg}"
    );
}

#[test]
fn world_readable_0604_is_rejected_by_default() {
    let msg = token_file("hvs.abc", 0o604, Some("0")).unwrap_err();
    assert!(msg.contains("refusing to read token"));
}

#[test]
fn group_readable_0644_is_allowed_with_env_override_1() {
    let result = token_file("hvs.abc", 0o644, Some("1")).unwrap();
    assert_eq!(result.as_deref(), Some("hvs.abc"));
}

#[test]
fn env_override_accepts_true_string() {
    let result = token_file("hvs.abc", 0o644, Some("true")).unwrap();
    assert_eq!(result.as_deref(), Some("hvs.abc"));
}

#[test]
fn env_override_accepts_uppercase_true() {
    let result = token_file("hvs.abc", 0o644, Some("TRUE")).unwrap();
    assert_eq!(result.as_deref(), Some("hvs.abc"));
}

#[test]
fn env_override_set_to_zero_does_not_bypass() {
    let msg = token_file("hvs.abc", 0o644, Some("0")).unwrap_err();
    assert!(msg.contains("refusing to read token"));
}

#[test]
fn token_with_trailing_newline_is_trimmed() {
    let result = token_file("hvs.abc\n\n", 0o600, None).unwrap();
    assert_eq!(result.as_deref(), Some("hvs.abc"));
}

#[test]
fn token_with_leading_whitespace_is_trimmed() {
    let result = token_file("  \thvs.abc\n", 0o600, None).unwrap();
    assert_eq!(result.as_deref(), Some("hvs.abc"));
}

#[test]
fn token_with_internal_whitespace_preserved() {
    let result = token_file("hvs.abc xyz\n", 0o600, None).unwrap();
    assert_eq!(result.as_deref(), Some("hvs.abc xyz"));
}

#[test]
fn refusal_names_the_file_and_its_mode() {
    assert_eq!(
        token_file("hvs.abc", 0o644, None),
        Err(
            "refusing to read token from /home/alice/tok: file is group/world readable (mode 0o644). chmod 600 it, or set VAULTENV_ALLOW_INSECURE_TOKEN_FILE=1 to bypass this check."
                .to_string()
        )
    );
    let msg = token_file("hvs.abc", 0o4711, None).unwrap_err();
    assert!(msg.contains("(mode 0o4711)"), "msg was: {msg}");
}

#[test]
fn empty_file_is_not_checked_for_permissions() {
    assert_eq!(token_file(" \n", 0o777, None), Ok(None));
}

#[test]
fn unreadable_token_files_are_errors() {
    let unread = resolve_token_file(
        "tok",
        FileContents::Unreadable("Permission denied".to_string()),
        Ok(0o600),
        None,
    )
    .unwrap_err();
    assert_eq!(unread.message(), "failed to read token file: tok");
    assert_eq!(unread.cause(), Some("Permission denied"));
    let no_mode = resolve_token_file(
        "tok",
        FileContents::Text("t".to_string()),
        Err("gone".to_string()),
        None,
    )
    .unwrap_err();
    assert_eq!(no_mode.message(), "failed to stat token file: tok");
    assert_eq!(no_mode.cause(), Some("gone"));
    let exposed = TokenFileError::Exposed {
        file: "tok".to_string(),
        mode: 0o100640,
    };
    assert_eq!(exposed.cause(), None);
}

#[test]
fn jwt_file_is_trimmed() {
    assert_eq!(
        resolve_jwt_file_token("jwt.txt", Ok(" a.b.c\r\n".to_string()), "ci".to_string()),
        Ok(AuthMethod::Jwt {
            role: "ci".to_string(),
            token: "a.b.c".to_string(),
        })
    );
    let unread =
        resolve_jwt_file_token("jwt.txt", Err("denied".to_string()), "ci".to_string()).unwrap_err();
    assert_eq!(unread.message(), "failed to read jwt file: jwt.txt");
    assert_eq!(unread.cause(), Some("denied"));
}
