//! Shared types used across the modules.

use vstd::prelude::*;
use vstd::string::*;

use crate::text::{ascii_lowered, same_text, to_ascii_lower};

verus! {

/// Log level for the output.
#[derive(Debug, Clone, Copy, PartialEq, Eq, PartialOrd, Ord, Default, Structural)]
pub enum LogLevel {
    /// Most verbose; every tracing span is emitted.
    Trace,
    /// Detailed debugging information.
    Debug,
    /// Informational messages about progress.
    Info,
    /// Potentially problematic conditions.
    Warn,
    /// Print errors only (default).
    #[default]
    Error,
}

/// Behavior when duplicate environment variables are detected.
#[derive(Debug, Clone, Copy, PartialEq, Eq, Default, Structural)]
pub enum DuplicateBehavior {
    /// Produce an error (default).
    #[default]
    Error,
    /// Keep the existing variable, ignore the secret.
    Keep,
    /// Overwrite the existing variable with the secret value.
    Overwrite,
}

/// A log level as an option gives it.
#[derive(Debug, Clone, Copy, PartialEq, Eq, Structural)]
pub struct LogLevelArg(pub LogLevel);

/// A duplicate behavior as an option gives it.
#[derive(Debug, Clone, Copy, PartialEq, Eq, Structural)]
pub struct DuplicateBehaviorArg(pub DuplicateBehavior);

/// The name of a log level.
pub open spec fn level_name(level: LogLevel) -> Seq<char> {
    match level {
        LogLevel::Trace => "trace"@,
        LogLevel::Debug => "debug"@,
        LogLevel::Info => "info"@,
        LogLevel::Warn => "warn"@,
        LogLevel::Error => "error"@,
    }
}

/// The name of a duplicate behavior.
pub open spec fn behavior_name(behavior: DuplicateBehavior) -> Seq<char> {
    match behavior {
        DuplicateBehavior::Error => "error"@,
        DuplicateBehavior::Keep => "keep"@,
        DuplicateBehavior::Overwrite => "overwrite"@,
    }
}

/// Whether a text is none of the names of log levels, in any case.
pub open spec fn no_level_name(text: Seq<char>) -> bool {
    forall|level: LogLevel| ascii_lowered(text) != #[trigger] level_name(level)
}

/// Whether a text is none of the names of duplicate behaviors, in any case.
pub open spec fn no_behavior_name(text: Seq<char>) -> bool {
    forall|behavior: DuplicateBehavior|
        ascii_lowered(text) != #[trigger] behavior_name(behavior)
}

/// No two log levels share a name, and the names are in lower case: so the name
/// of a log level is read as that level.
pub proof fn law_level_names(a: LogLevel, b: LogLevel)
    ensures
        level_name(a) == level_name(b) ==> a == b,
        ascii_lowered(level_name(a)) == level_name(a),
{
    reveal_strlit("trace");
    reveal_strlit("debug");
    reveal_strlit("info");
    reveal_strlit("warn");
    reveal_strlit("error");
    assert(level_name(a)[0] == level_name(b)[0] ==> a == b);
    assert(ascii_lowered(level_name(a)) =~= level_name(a));
}

/// No two duplicate behaviors share a name, and the names are in lower case: so
/// the name of a behavior is read as that behavior.
pub proof fn law_behavior_names(a: DuplicateBehavior, b: DuplicateBehavior)
    ensures
        behavior_name(a) == behavior_name(b) ==> a == b,
        ascii_lowered(behavior_name(a)) == behavior_name(a),
{
    reveal_strlit("error");
    reveal_strlit("keep");
    reveal_strlit("overwrite");
    assert(behavior_name(a)[0] == behavior_name(b)[0] ==> a == b);
    assert(ascii_lowered(behavior_name(a)) =~= behavior_name(a));
}

/// The names of the log levels and of the duplicate behaviors.
pub proof fn law_names()
    ensures
        level_name(LogLevel::Trace) == "trace"@,
        level_name(LogLevel::Debug) == "debug"@,
        level_name(LogLevel::Info) == "info"@,
        level_name(LogLevel::Warn) == "warn"@,
        level_name(LogLevel::Error) == "error"@,
        behavior_name(DuplicateBehavior::Error) == "error"@,
        behavior_name(DuplicateBehavior::Keep) == "keep"@,
        behavior_name(DuplicateBehavior::Overwrite) == "overwrite"@,
{
}

/// A text that is no name of a log level, or of a duplicate behavior, is none of their
/// names in upper or lower case; and any other text is one.
pub proof fn law_no_names(text: Seq<char>)
    ensures
        no_level_name(text) <==> !seq![
            "trace"@,
            "debug"@,
            "info"@,
            "warn"@,
            "error"@,
        ].contains(ascii_lowered(text)),
        no_behavior_name(text) <==> !seq!["error"@, "keep"@, "overwrite"@].contains(
            ascii_lowered(text),
        ),
{
    let lower = ascii_lowered(text);
    let levels = seq!["trace"@, "debug"@, "info"@, "warn"@, "error"@];
    let behaviors = seq!["error"@, "keep"@, "overwrite"@];
    assert(levels[0] == level_name(LogLevel::Trace) && levels[1] == level_name(LogLevel::Debug)
        && levels[2] == level_name(LogLevel::Info) && levels[3] == level_name(LogLevel::Warn)
        && levels[4] == level_name(LogLevel::Error));
    assert(behaviors[0] == behavior_name(DuplicateBehavior::Error) && behaviors[1]
        == behavior_name(DuplicateBehavior::Keep) && behaviors[2] == behavior_name(
        DuplicateBehavior::Overwrite,
    ));
    if no_level_name(text) {
        assert(!levels.contains(lower));
    } else {
        let level = choose|level: LogLevel| lower == #[trigger] level_name(level);
        assert(levels.contains(lower));
    }
    if no_behavior_name(text) {
        assert(!behaviors.contains(lower));
    } else {
        let behavior = choose|behavior: DuplicateBehavior|
            lower == #[trigger] behavior_name(behavior);
        assert(behaviors.contains(lower));
    }
}

impl Default for LogLevelArg {
    fn default() -> (arg: Self)
        ensures
            arg == LogLevelArg(LogLevel::Error),
    {
        LogLevelArg(LogLevel::Error)
    }
}

impl Default for DuplicateBehaviorArg {
    fn default() -> (arg: Self)
        ensures
            arg == DuplicateBehaviorArg(DuplicateBehavior::Error),
    {
        DuplicateBehaviorArg(DuplicateBehavior::Error)
    }
}

impl LogLevelArg {
    /// Reads the name of a log level, in upper or lower case.
    pub fn parse(s: &str) -> (arg: Result<Self, String>)
        ensures
            match arg {
                Ok(arg) => ascii_lowered(s@) == level_name(arg.0),
                Err(reason) => no_level_name(s@) && reason@ == "unknown log level '"@ + s@
                    + "', expected trace|debug|info|warn|error"@,
            },
    {
        let name = to_ascii_lower(s);
        if same_text(name.as_str(), "trace") {
            Ok(LogLevelArg(LogLevel::Trace))
        } else if same_text(name.as_str(), "debug") {
            Ok(LogLevelArg(LogLevel::Debug))
        } else if same_text(name.as_str(), "info") {
            Ok(LogLevelArg(LogLevel::Info))
        } else if same_text(name.as_str(), "warn") {
            Ok(LogLevelArg(LogLevel::Warn))
        } else if same_text(name.as_str(), "error") {
            Ok(LogLevelArg(LogLevel::Error))
        } else {
            let mut reason = "unknown log level '".to_owned();
            reason.append(s);
            reason.append("', expected trace|debug|info|warn|error");
            Err(reason)
        }
    }

    /// The name of the log level.
    pub fn to_string(&self) -> (name: String)
        ensures
            name@ == level_name(self.0),
    {
        match self.0 {
            LogLevel::Trace => "trace".to_owned(),
            LogLevel::Debug => "debug".to_owned(),
            LogLevel::Info => "info".to_owned(),
            LogLevel::Warn => "warn".to_owned(),
            LogLevel::Error => "error".to_owned(),
        }
    }
}

impl DuplicateBehaviorArg {
    /// Reads the name of a duplicate behavior, in upper or lower case.
    pub fn parse(s: &str) -> (arg: Result<Self, String>)
        ensures
            match arg {
                Ok(arg) => ascii_lowered(s@) == behavior_name(arg.0),
                Err(reason) => no_behavior_name(s@) && reason@ == "unknown duplicate behavior '"@
                    + s@ + "', expected error|keep|overwrite"@,
            },
    {
        let name = to_ascii_lower(s);
        if same_text(name.as_str(), "error") {
            Ok(DuplicateBehaviorArg(DuplicateBehavior::Error))
        } else if same_text(name.as_str(), "keep") {
            Ok(DuplicateBehaviorArg(DuplicateBehavior::Keep))
        } else if same_text(name.as_str(), "overwrite") {
            Ok(DuplicateBehaviorArg(DuplicateBehavior::Overwrite))
        } else {
            let mut reason = "unknown duplicate behavior '".to_owned();
            reason.append(s);
            reason.append("', expected error|keep|overwrite");
            Err(reason)
        }
    }

    /// The name of the duplicate behavior.
    pub fn to_string(&self) -> (name: String)
        ensures
            name@ == behavior_name(self.0),
    {
        match self.0 {
            DuplicateBehavior::Error => "error".to_owned(),
            DuplicateBehavior::Keep => "keep".to_owned(),
            DuplicateBehavior::Overwrite => "overwrite".to_owned(),
        }
    }
}

impl std::str::FromStr for LogLevelArg {
    type Err = String;

    fn from_str(s: &str) -> (arg: Result<Self, String>)
        ensures
            match arg {
                Ok(arg) => ascii_lowered(s@) == level_name(arg.0),
                Err(reason) => no_level_name(s@) && reason@ == "unknown log level '"@ + s@
                    + "', expected trace|debug|info|warn|error"@,
            },
    {
        LogLevelArg::parse(s)
    }
}

impl std::str::FromStr for DuplicateBehaviorArg {
    type Err = String;

    fn from_str(s: &str) -> (arg: Result<Self, String>)
        ensures
            match arg {
                Ok(arg) => ascii_lowered(s@) == behavior_name(arg.0),
                Err(reason) => no_behavior_name(s@) && reason@ == "unknown duplicate behavior '"@
                    + s@ + "', expected error|keep|overwrite"@,
            },
    {
        DuplicateBehaviorArg::parse(s)
    }
}

} // verus!
