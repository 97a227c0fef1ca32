//! Severity levels and the keyword rules that assign them to raw lines.

use crate::text::{contains, is_substring, lowercase};
use vstd::prelude::*;

verus! {

/// Severity assigned to an entry when it is ingested.
#[derive(Clone, Copy, Debug, PartialEq, Eq, Structural)]
pub enum LogLevel {
    Info,
    Debug,
    Warning,
    Error,
    Unknown,
}

/// Colour in which entries of a level are shown.
#[derive(Clone, Copy, Debug, PartialEq, Eq, Structural)]
pub enum LevelColor {
    Green,
    Cyan,
    Yellow,
    Red,
    Gray,
}

/// The level of a line, given the line and its lower-case form.
///
/// The rules are tried in a fixed order and the first that applies decides:
/// the banner of the system log's statistics report, matched exactly, is
/// informational whatever else the line holds; then the error keywords, the
/// warning keyword, the debug keyword and the informational keywords, each
/// looked for in the lower-case form.
pub open spec fn level_of(line: Seq<char>, lower: Seq<char>) -> LogLevel {
    if is_substring("ASL Sender Statistics"@, line) {
        LogLevel::Info
    } else if is_substring("error"@, lower) || is_substring("fail"@, lower) || is_substring(
        "exception"@,
        lower,
    ) {
        LogLevel::Error
    } else if is_substring("warn"@, lower) {
        LogLevel::Warning
    } else if is_substring("debug"@, lower) {
        LogLevel::Debug
    } else if is_substring("notice"@, lower) || is_substring("info"@, lower) {
        LogLevel::Info
    } else {
        LogLevel::Unknown
    }
}

/// The level of a raw line: the keyword rules applied to the line and to its
/// lower-case form, so that keywords match whatever their case.
pub open spec fn classify(line: Seq<char>) -> LogLevel {
    level_of(line, lowercase(line))
}

impl LogLevel {
    /// Classifies a raw line. Every text, the empty one included, has a level.
    pub fn from_line(line: &str) -> (level: LogLevel)
        ensures
            level == classify(line@),
    {
        let lower = line.to_lowercase();
        LogLevel::from_lowered(line, lower.as_str())
    }

    /// Applies the keyword rules to a line whose lower-case form is `lower`.
    pub fn from_lowered(line: &str, lower: &str) -> (level: LogLevel)
        ensures
            level == level_of(line@, lower@),
    {
        if contains(line, "ASL Sender Statistics") {
            LogLevel::Info
        } else if contains(lower, "error") || contains(lower, "fail") || contains(
            lower,
            "exception",
        ) {
            LogLevel::Error
        } else if contains(lower, "warn") {
            LogLevel::Warning
        } else if contains(lower, "debug") {
            LogLevel::Debug
        } else if contains(lower, "notice") || contains(lower, "info") {
            LogLevel::Info
        } else {
            LogLevel::Unknown
        }
    }

    /// The name of each level as a sequence of characters.
    pub open spec fn name(&self) -> Seq<char> {
        match self {
            LogLevel::Info => "INFO"@,
            LogLevel::Debug => "DEBUG"@,
            LogLevel::Warning => "WARNING"@,
            LogLevel::Error => "ERROR"@,
            LogLevel::Unknown => "UNKNOWN"@,
        }
    }

    /// Upper-case name of the level, as shown next to each entry.
    pub fn as_str(&self) -> (name: &'static str)
        ensures
            name@ == self.name(),
    {
        match self {
            LogLevel::Info => "INFO",
            LogLevel::Debug => "DEBUG",
            LogLevel::Warning => "WARNING",
            LogLevel::Error => "ERROR",
            LogLevel::Unknown => "UNKNOWN",
        }
    }

    /// The colour of each level.
    pub open spec fn spec_color(&self) -> LevelColor {
        match self {
            LogLevel::Info => LevelColor::Green,
            LogLevel::Debug => LevelColor::Cyan,
            LogLevel::Warning => LevelColor::Yellow,
            LogLevel::Error => LevelColor::Red,
            LogLevel::Unknown => LevelColor::Gray,
        }
    }

    /// Colour in which entries of this level are shown.
    #[verifier::when_used_as_spec(spec_color)]
    pub fn color(&self) -> (c: LevelColor)
        ensures
            c == self.spec_color(),
    {
        match self {
            LogLevel::Info => LevelColor::Green,
            LogLevel::Debug => LevelColor::Cyan,
            LogLevel::Warning => LevelColor::Yellow,
            LogLevel::Error => LevelColor::Red,
            LogLevel::Unknown => LevelColor::Gray,
        }
    }
}

} // verus!
