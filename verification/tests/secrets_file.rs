use vaultenv::secrets_file::{generate_var_name, parse_secrets_file, read_secrets_file};
use vaultenv::secrets_file::{Secret, SecretsFileError};

#[test]
fn test_empty_v2() {
    let secrets = parse_secrets_file("VERSION 2\n").unwrap();
    assert!(secrets.is_empty());
}

#[test]
fn test_v2_basic() {
    let secrets = parse_secrets_file("VERSION 2\nMOUNT secret\nfoo#bar\n").unwrap();
    assert_eq!(secrets.len(), 1);
    assert_eq!(secrets[0].mount, "secret");
    assert_eq!(secrets[0].path, "foo");
    assert_eq!(secrets[0].key, "bar");
    assert_eq!(secrets[0].var_name, "SECRET_FOO_BAR");
}

#[test]
fn test_v2_explicit_var() {
    let secrets = parse_secrets_file("VERSION 2\nMOUNT secret\nBAR=foo/baz#bar\n").unwrap();
    assert_eq!(secrets.len(), 1);
    assert_eq!(secrets[0].var_name, "BAR");
    assert_eq!(secrets[0].path, "foo/baz");
    assert_eq!(secrets[0].key, "bar");
}

#[test]
fn test_v2_multiple_mounts() {
    let input = "\n\
VERSION 2\n\
\n\
MOUNT secret\n\
foo#bar\n\
BAR=foo/baz#bar\n\
\n\
MOUNT otherthing\n\
foo#bar\n\
BAR=foo/baz#bar\n\
";
    let secrets = parse_secrets_file(input).unwrap();
    assert_eq!(secrets.len(), 4);

    assert_eq!(secrets[0].mount, "secret");
    assert_eq!(secrets[0].var_name, "SECRET_FOO_BAR");

    assert_eq!(secrets[1].mount, "secret");
    assert_eq!(secrets[1].var_name, "BAR");

    assert_eq!(secrets[2].mount, "otherthing");
    assert_eq!(secrets[2].var_name, "OTHERTHING_FOO_BAR");

    assert_eq!(secrets[3].mount, "otherthing");
    assert_eq!(secrets[3].var_name, "BAR");
}

#[test]
fn test_empty_block() {
    let input = "\n\
VERSION 2\n\
MOUNT empty\n\
MOUNT nonempty\n\
FOO_BAR=foo#bar\n\
MOUNT empty2\n\
";
    let secrets = parse_secrets_file(input).unwrap();
    assert_eq!(secrets.len(), 1);
    assert_eq!(secrets[0].mount, "nonempty");
    assert_eq!(secrets[0].var_name, "FOO_BAR");
}

#[test]
fn test_whitespace_forgiving() {
    let input = "VERSION    2\n\n  MOUNT secret\nstuff/and#things\n";
    let secrets = parse_secrets_file(input).unwrap();
    assert_eq!(secrets.len(), 1);
    assert_eq!(secrets[0].mount, "secret");
    assert_eq!(secrets[0].path, "stuff/and");
    assert_eq!(secrets[0].key, "things");
    assert_eq!(secrets[0].var_name, "SECRET_STUFF_AND_THINGS");
}

#[test]
fn test_rejects_plain_v1() {
    let result = parse_secrets_file("foo#bar\n");
    assert!(result.is_err());
}

#[test]
fn test_rejects_version_1() {
    let result = parse_secrets_file("VERSION 1\nfoo#bar\n");
    assert!(result.is_err());
}

#[test]
fn test_rejects_ambiguous() {
    let result = parse_secrets_file("VERSION 2\nMOUNT secret\nfoo#bar/baz#quix\n");
    assert!(result.is_err());
}

#[test]
fn test_rejects_bad_envvar() {
    let result = parse_secrets_file(
        "VERSION 2\nMOUNT secret\n5_shouldnt_lead_with_numbers=testing#secret\n",
    );
    assert!(result.is_err());
}

#[test]
fn test_rejects_mount_without_path() {
    let result = parse_secrets_file("VERSION 2\nMOUNT\nfoo#bar\n");
    assert!(result.is_err());
}

#[test]
fn test_rejects_version_without_2() {
    let result = parse_secrets_file("VERSION\n2\nMOUNT secret\nfoo#bar\n");
    assert!(result.is_err());
}

#[test]
fn test_auto_var_name_with_dashes_and_slashes() {
    let secrets = parse_secrets_file("VERSION 2\nMOUNT secret\na-b/c-d#e-f\n").unwrap();
    assert_eq!(secrets[0].var_name, "SECRET_A_B_C_D_E_F");
}

#[test]
fn test_special_chars_in_path() {
    let secrets = parse_secrets_file("VERSION 2\nMOUNT secret\nfoob@ar#baz\n").unwrap();
    assert_eq!(secrets[0].path, "foob@ar");
    assert_eq!(secrets[0].key, "baz");
}

#[test]
fn test_unicode_path() {
    let secrets = parse_secrets_file("VERSION 2\nMOUNT secret\nfoՔob@ar#baz\n").unwrap();
    assert_eq!(secrets[0].path, "foՔob@ar");
    assert_eq!(secrets[0].key, "baz");
}

#[test]
fn test_no_trailing_newline() {
    let result = parse_secrets_file("VERSION 2\nMOUNT secret\nfoo#bar");
    assert!(result.is_err());
}

fn secret(mount: &str, path: &str, key: &str, var_name: &str) -> Secret {
    Secret {
        mount: mount.to_string(),
        path: path.to_string(),
        key: key.to_string(),
        var_name: var_name.to_string(),
    }
}

#[test]
fn quick_start_file() {
    let input = "VERSION 2\n\
MOUNT secret\n\
\n\
DATABASE_URL=production/db#url\n\
REDIS_PASSWORD=production/redis#password\n\
";
    assert_eq!(
        parse_secrets_file(input).unwrap(),
        vec![
            secret("secret", "production/db", "url", "DATABASE_URL"),
            secret("secret", "production/redis", "password", "REDIS_PASSWORD"),
        ]
    );
}

#[test]
fn comments_are_skipped() {
    let input = "# at the top\n\
VERSION 2\n\
  # indented\n\
MOUNT secret\n\
# Optional explicit variable name\n\
MY_VAR=path/to/secret#key\n\
#\n\
# at the end";
    assert_eq!(
        parse_secrets_file(input).unwrap(),
        vec![secret("secret", "path/to/secret", "key", "MY_VAR")]
    );
}

#[test]
fn notes_between_lines_change_nothing() {
    let plain = "VERSION 2\nMOUNT secret\nA=a#b\nB=c#d\n";
    let noted = "VERSION 2\n\nMOUNT secret\n# one\nA=a#b\n \t \n# two\nB=c#d\n\n";
    assert_eq!(parse_secrets_file(plain), parse_secrets_file(noted));
}

#[test]
fn spacing_within_lines_is_free() {
    let input = "VERSION\t2 \r\n MOUNT\tkv \r\n\tNAME= p # k \r\nMOUNTother\nx#y\n";
    assert_eq!(
        parse_secrets_file(input).unwrap(),
        vec![
            secret("kv", "p", "k", "NAME"),
            secret("other", "x", "y", "OTHER_X_Y"),
        ]
    );
}

#[test]
fn secrets_need_a_mount_above_them() {
    assert_eq!(
        parse_secrets_file("VERSION 2\nfoo#bar\nMOUNT secret\n"),
        Err("unexpected trailing content after parse: foo#bar\nMOUNT secret".to_string())
    );
}

#[test]
fn reading_stops_at_the_first_strange_line() {
    assert_eq!(
        parse_secrets_file("VERSION 2\nMOUNT secret\na#b\n  what is this\nc#d\n"),
        Err("unexpected trailing content after parse: what is this\nc#d".to_string())
    );
}

#[test]
fn lines_are_read_independently_of_those_above() {
    let above = "MOUNT one\nA=p#k\n\n  \n";
    let below = "# second part\nMOUNT two\nB=q#k\nC=r#k\n";
    let read = |lines: &str| parse_secrets_file(&format!("VERSION 2\n{lines}"));
    let first = read(above).unwrap();
    let second = read(below).unwrap();
    assert_eq!(first, vec![secret("one", "p", "k", "A")]);
    assert_eq!(
        second,
        vec![secret("two", "q", "k", "B"), secret("two", "r", "k", "C")]
    );
    let both = read(&format!("{above}{below}")).unwrap();
    assert_eq!(both, [first, second].concat());

    // A line of other white space can only end a file.
    assert_eq!(read("\u{3000}\n").unwrap(), Vec::new());
    assert!(read(&format!("\u{3000}\n{below}")).is_err());
}

#[test]
fn missing_header_has_no_explanation() {
    assert_eq!(parse_secrets_file("MOUNT secret\n"), Err(String::new()));
    assert_eq!(parse_secrets_file(""), Err(String::new()));
    assert_eq!(parse_secrets_file("VERSION 2"), Err(String::new()));
}

#[test]
fn white_space_behind_the_last_line_is_no_content() {
    assert_eq!(parse_secrets_file("VERSION 2\n   \t ").unwrap(), vec![]);
    assert_eq!(parse_secrets_file("VERSION 2\n\u{3000}").unwrap(), vec![]);
}

#[test]
fn names_are_upper_cased_as_unicode_defines_it() {
    assert_eq!(generate_var_name("straße", "a-b", "ÿ"), "STRASSE_A_B_Ÿ");
    assert_eq!(generate_var_name("secret", "app/db", "password"), "SECRET_APP_DB_PASSWORD");
}

#[test]
fn file_errors_say_what_happened() {
    let unread = read_secrets_file(Err("No such file or directory".to_string())).unwrap_err();
    assert_eq!(unread, SecretsFileError::Io("No such file or directory".to_string()));
    assert_eq!(unread.message(), "failed to read secrets file: No such file or directory");
    let strange = read_secrets_file(Ok("VERSION 2\nx\n".to_string())).unwrap_err();
    assert_eq!(
        strange.message(),
        "parse error: unexpected trailing content after parse: x"
    );
    let fine = read_secrets_file(Ok("VERSION 2\nMOUNT m\np#k\n".to_string())).unwrap();
    assert_eq!(fine, vec![secret("m", "p", "k", "M_P_K")]);
}
