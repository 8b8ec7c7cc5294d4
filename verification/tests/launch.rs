use vaultenv::json::Json;
use vaultenv::launch::{
    build_environment, build_keeping_environment, exec_arguments, exec_environment,
    launch_environment, load_secrets, program_path, LaunchError,
};
use vaultenv::secrets_file::SecretsFileError;
use vaultenv::string_map::StringMap;
use vaultenv::types::DuplicateBehavior;
use vaultenv::vault_api::{EngineType, MountInfo, VaultData, VaultError};

fn strings(pairs: &[(&str, &str)]) -> Vec<(String, String)> {
    pairs
        .iter()
        .map(|(k, v)| (k.to_string(), v.to_string()))
        .collect()
}

fn names(list: &[&str]) -> Vec<String> {
    list.iter().map(|s| s.to_string()).collect()
}

#[test]
fn files_have_to_ask_for_a_secret() {
    let secrets = load_secrets("f", Ok("VERSION 2\nMOUNT m\nA=p#k\n".to_string())).unwrap();
    assert_eq!(secrets.len(), 1);
    let empty = load_secrets("f", Ok("VERSION 2\nMOUNT secret\n".to_string())).unwrap_err();
    assert_eq!(empty.message(), "no secrets specified in f");
    let unread = load_secrets("f", Err("gone".to_string())).unwrap_err();
    assert_eq!(
        unread,
        LaunchError::SecretsFile(SecretsFileError::Io("gone".to_string()))
    );
    assert_eq!(
        unread.message(),
        "failed to read secrets file: failed to read secrets file: gone"
    );
    let strange = load_secrets("f", Ok("VERSION 2\n?\n".to_string())).unwrap_err();
    assert_eq!(
        strange.message(),
        "failed to read secrets file: parse error: unexpected trailing content after parse: ?"
    );
}

#[test]
fn failures_say_at_which_stage() {
    let error = || VaultError::Forbidden;
    let said = "forbidden: the provided token is invalid or expired";
    let cases = [
        (LaunchError::Client(error()), "failed to create Vault client: "),
        (LaunchError::Authentication(error()), "authentication failed: "),
        (LaunchError::MountInfo(error()), "mount info discovery failed: "),
        (LaunchError::Fetching(error()), "secret fetching failed: "),
        (LaunchError::Resolution(error()), "secret resolution failed: "),
        (LaunchError::Duplicate(error()), "duplicate variable check failed: "),
    ];
    for (failure, intro) in cases {
        assert_eq!(failure.message(), format!("{intro}{said}"));
    }
}

#[test]
fn secrets_prevail_over_what_is_inherited() {
    let parent = strings(&[("PATH", "/bin"), ("TOKEN", "old"), ("LANG", "C")]);
    let secrets = strings(&[("NEW", "n"), ("TOKEN", "secret")]);
    assert_eq!(
        build_environment(true, &Vec::new(), &parent, secrets),
        strings(&[("PATH", "/bin"), ("TOKEN", "secret"), ("LANG", "C"), ("NEW", "n")])
    );
}

#[test]
fn blacklisted_variables_are_dropped() {
    let parent = strings(&[("PATH", "/bin"), ("VAULT_TOKEN", "t"), ("LANG", "C")]);
    let secrets = strings(&[("LANG", "secret")]);
    assert_eq!(
        build_environment(true, &names(&["VAULT_TOKEN", "LANG", "X"]), &parent, secrets),
        strings(&[("PATH", "/bin"), ("LANG", "secret")])
    );
}

#[test]
fn nothing_need_be_inherited() {
    let parent = strings(&[("PATH", "/bin")]);
    let secrets = strings(&[("B", "2"), ("A", "1")]);
    assert_eq!(
        build_environment(false, &Vec::new(), &parent, secrets.clone()),
        secrets
    );
}

fn store(values: &[(&str, &str, &str)]) -> StringMap<VaultData> {
    let mut store = StringMap::new();
    for (path, key, value) in values {
        store.insert(
            path.to_string(),
            VaultData(StringMap::from_pairs(vec![(
                key.to_string(),
                Json::Text(value.to_string()),
            )])),
        );
    }
    store
}

#[test]
fn secrets_reach_the_program() {
    let text = "VERSION 2\nMOUNT secret\n\nDATABASE_URL=production/db#url\nREDIS_PASSWORD=production/redis#password\n";
    let secrets = load_secrets("f", Ok(text.to_string())).unwrap();
    let mounts = MountInfo::from_map(StringMap::from_pairs(vec![(
        "secret/".to_string(),
        EngineType::V2,
    )]));
    let vault = store(&[
        ("/v1/secret/data/production/db", "url", "postgres://db"),
        ("/v1/secret/data/production/redis", "password", "hunter2"),
    ]);
    let env = launch_environment(
        &mounts,
        &secrets,
        &vault,
        DuplicateBehavior::Error,
        true,
        &names(&["VAULT_TOKEN"]),
        &strings(&[("HOME", "/root"), ("VAULT_TOKEN", "hvs.xxx")]),
    )
    .unwrap();
    assert_eq!(
        exec_environment(&env),
        names(&["HOME=/root", "DATABASE_URL=postgres://db", "REDIS_PASSWORD=hunter2"])
    );
}

#[test]
fn duplicate_names_are_treated_as_asked() {
    let text = "VERSION 2\nMOUNT m\nX=a#k\nY=b#k\nX=b#k\n";
    let secrets = load_secrets("f", Ok(text.to_string())).unwrap();
    let mounts = MountInfo::from_map(StringMap::new());
    let vault = store(&[("/v1/m/a", "k", "1"), ("/v1/m/b", "k", "2")]);
    let launch = |behavior| {
        launch_environment(
            &mounts,
            &secrets,
            &vault,
            behavior,
            false,
            &Vec::new(),
            &Vec::new(),
        )
    };
    assert_eq!(
        launch(DuplicateBehavior::Error),
        Err(LaunchError::Duplicate(VaultError::DuplicateVar("X".to_string())))
    );
    assert_eq!(
        launch(DuplicateBehavior::Keep).unwrap(),
        strings(&[("X", "1"), ("Y", "2")])
    );
    assert_eq!(
        launch(DuplicateBehavior::Overwrite).unwrap(),
        strings(&[("X", "2"), ("Y", "2")])
    );
}

#[test]
fn inherited_variables_are_kept_where_asked() {
    let secrets =
        load_secrets("f", Ok("VERSION 2\nMOUNT m\nFOO=a#k\nBAR=a#k\n".to_string())).unwrap();
    let mounts = MountInfo::from_map(StringMap::new());
    let vault = store(&[("/v1/m/a", "k", "new")]);
    let parent = strings(&[("FOO", "old"), ("LANG", "C")]);
    let launch = |behavior, inherit, blacklist: &[&str]| {
        launch_environment(
            &mounts,
            &secrets,
            &vault,
            behavior,
            inherit,
            &names(blacklist),
            &parent,
        )
        .unwrap()
    };
    let kept = strings(&[("FOO", "old"), ("LANG", "C"), ("BAR", "new")]);
    let replaced = strings(&[("FOO", "new"), ("LANG", "C"), ("BAR", "new")]);
    assert_eq!(launch(DuplicateBehavior::Keep, true, &[]), kept);
    assert_eq!(launch(DuplicateBehavior::Overwrite, true, &[]), replaced);
    assert_eq!(launch(DuplicateBehavior::Error, true, &[]), replaced);
    assert_eq!(
        launch(DuplicateBehavior::Keep, true, &["FOO"]),
        strings(&[("LANG", "C"), ("FOO", "new"), ("BAR", "new")])
    );
    assert_eq!(
        launch(DuplicateBehavior::Keep, false, &[]),
        strings(&[("FOO", "new"), ("BAR", "new")])
    );
}

#[test]
fn kept_variables_stand_before_the_secrets() {
    let parent = strings(&[("PATH", "/bin"), ("TOKEN", "old"), ("VAULT_TOKEN", "t")]);
    let secrets = strings(&[("NEW", "n"), ("TOKEN", "secret"), ("VAULT_TOKEN", "s")]);
    assert_eq!(
        build_keeping_environment(&names(&["VAULT_TOKEN"]), &parent, secrets),
        strings(&[("PATH", "/bin"), ("TOKEN", "old"), ("NEW", "n"), ("VAULT_TOKEN", "s")])
    );
}

#[test]
fn unresolved_secrets_stop_the_launch() {
    let secrets = load_secrets("f", Ok("VERSION 2\nMOUNT m\nX=a#k\n".to_string())).unwrap();
    let mounts = MountInfo::from_map(StringMap::new());
    let launch = |vault| {
        launch_environment(
            &mounts,
            &secrets,
            &vault,
            DuplicateBehavior::Keep,
            true,
            &Vec::new(),
            &Vec::new(),
        )
    };
    assert_eq!(
        launch(store(&[])).unwrap_err().message(),
        "secret resolution failed: secret not found: /v1/m/a"
    );
    assert_eq!(
        launch(store(&[("/v1/m/a", "other", "1")])).unwrap_err().message(),
        "secret resolution failed: key not found for secret \"/v1/m/a\""
    );
}

#[test]
fn the_program_is_its_own_first_argument() {
    assert_eq!(
        exec_arguments("./my-app", &names(&["-v", "x y"])),
        names(&["./my-app", "-v", "x y"])
    );
    assert_eq!(exec_arguments("a", &Vec::new()), names(&["a"]));
}

#[test]
fn values_may_hold_equals_signs() {
    assert_eq!(
        exec_environment(&strings(&[("A", "b=c"), ("E", "")])),
        names(&["A=b=c", "E="])
    );
}

#[test]
fn path_is_searched_only_where_asked() {
    assert_eq!(program_path(true, Some("/bin/a"), "a"), "/bin/a");
    assert_eq!(program_path(false, Some("/bin/a"), "a"), "a");
    assert_eq!(program_path(true, None, "a"), "a");
}
