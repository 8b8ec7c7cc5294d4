use vaultenv::cloud_metadata::{Ec2SignatureType, Ec2SignatureTypeArg};
use vaultenv::types::{DuplicateBehavior, DuplicateBehaviorArg, LogLevel, LogLevelArg};

#[test]
fn test_log_level_from_str() {
    assert!(matches!(
        "trace".parse::<LogLevelArg>().unwrap().0,
        LogLevel::Trace
    ));
    assert!(matches!(
        "debug".parse::<LogLevelArg>().unwrap().0,
        LogLevel::Debug
    ));
    assert!(matches!(
        "info".parse::<LogLevelArg>().unwrap().0,
        LogLevel::Info
    ));
    assert!(matches!(
        "warn".parse::<LogLevelArg>().unwrap().0,
        LogLevel::Warn
    ));
    assert!(matches!(
        "error".parse::<LogLevelArg>().unwrap().0,
        LogLevel::Error
    ));
}

#[test]
fn test_log_level_display() {
    assert_eq!(LogLevelArg(LogLevel::Trace).to_string(), "trace");
    assert_eq!(LogLevelArg(LogLevel::Debug).to_string(), "debug");
    assert_eq!(LogLevelArg(LogLevel::Info).to_string(), "info");
    assert_eq!(LogLevelArg(LogLevel::Warn).to_string(), "warn");
    assert_eq!(LogLevelArg(LogLevel::Error).to_string(), "error");
}

#[test]
fn test_duplicate_behavior_from_str() {
    assert!(matches!(
        "error".parse::<DuplicateBehaviorArg>().unwrap().0,
        DuplicateBehavior::Error
    ));
    assert!(matches!(
        "keep".parse::<DuplicateBehaviorArg>().unwrap().0,
        DuplicateBehavior::Keep
    ));
    assert!(matches!(
        "overwrite".parse::<DuplicateBehaviorArg>().unwrap().0,
        DuplicateBehavior::Overwrite
    ));
}

#[test]
fn names_are_read_in_any_case() {
    assert_eq!(LogLevelArg::parse("WaRn"), Ok(LogLevelArg(LogLevel::Warn)));
    assert_eq!(
        DuplicateBehaviorArg::parse("OVERWRITE"),
        Ok(DuplicateBehaviorArg(DuplicateBehavior::Overwrite))
    );
    assert_eq!(Ec2SignatureType::parse("RSA2048"), Ok(Ec2SignatureType::Rsa2048));
    assert_eq!(
        "Identity".parse::<Ec2SignatureTypeArg>(),
        Ok(Ec2SignatureTypeArg(Ec2SignatureType::Identity))
    );
}

#[test]
fn names_are_read_back() {
    for level in [
        LogLevel::Trace,
        LogLevel::Debug,
        LogLevel::Info,
        LogLevel::Warn,
        LogLevel::Error,
    ] {
        assert_eq!(LogLevelArg::parse(&LogLevelArg(level).to_string()), Ok(LogLevelArg(level)));
    }
    for behavior in [
        DuplicateBehavior::Error,
        DuplicateBehavior::Keep,
        DuplicateBehavior::Overwrite,
    ] {
        let arg = DuplicateBehaviorArg(behavior);
        assert_eq!(DuplicateBehaviorArg::parse(&arg.to_string()), Ok(arg));
    }
    for sig in [
        Ec2SignatureType::Pkcs7,
        Ec2SignatureType::Identity,
        Ec2SignatureType::Rsa2048,
    ] {
        let arg = Ec2SignatureTypeArg(sig);
        assert_eq!(Ec2SignatureTypeArg::parse(&arg.to_string()), Ok(arg));
        assert_eq!(arg.to_string().parse::<Ec2SignatureType>(), Ok(sig));
    }
}

#[test]
fn other_names_are_refused() {
    assert_eq!(
        LogLevelArg::parse("loud"),
        Err("unknown log level 'loud', expected trace|debug|info|warn|error".to_string())
    );
    assert_eq!(
        DuplicateBehaviorArg::parse(""),
        Err("unknown duplicate behavior '', expected error|keep|overwrite".to_string())
    );
    assert_eq!(
        Ec2SignatureTypeArg::parse("dsa"),
        Err(
            "unknown EC2 signature type 'dsa', expected 'pkcs7', 'identity', or 'rsa2048'"
                .to_string()
        )
    );
}

#[test]
fn defaults() {
    assert_eq!(LogLevelArg::default(), LogLevelArg(LogLevel::Error));
    assert_eq!(LogLevel::default(), LogLevel::Error);
    assert_eq!(
        DuplicateBehaviorArg::default(),
        DuplicateBehaviorArg(DuplicateBehavior::Error)
    );
    assert_eq!(DuplicateBehavior::default(), DuplicateBehavior::Error);
    assert_eq!(
        Ec2SignatureTypeArg::default(),
        Ec2SignatureTypeArg(Ec2SignatureType::Pkcs7)
    );
    assert_eq!(Ec2SignatureType::default(), Ec2SignatureType::Pkcs7);
}
