//! Levels and targets of the event log.

use vstd::prelude::*;

verus! {

/// The part of the system an event belongs to.
#[derive(Debug, Clone, Copy, PartialEq, Eq, Structural)]
pub enum LogTarget {
    Default,
    ModelsUpdate,
    Compiler,
}

/// The name of a target as the log stores it.
pub open spec fn target_text(t: LogTarget) -> Seq<char> {
    match t {
        LogTarget::Default => "default"@,
        LogTarget::ModelsUpdate => "update_models"@,
        LogTarget::Compiler => "compile_procedures"@,
    }
}

impl LogTarget {
    /// The name of the target as the log stores it.
    pub fn to_text(&self) -> (r: String)
        ensures
            r@ == target_text(*self),
    {
        match self {
            LogTarget::Default => String::from_str("default"),
            LogTarget::ModelsUpdate => String::from_str("update_models"),
            LogTarget::Compiler => String::from_str("compile_procedures"),
        }
    }
}

impl Default for LogTarget {
    fn default() -> (r: Self)
        ensures
            r == LogTarget::Default,
    {
        LogTarget::Default
    }
}

impl From<LogTarget> for String {
    fn from(target: LogTarget) -> (r: String) {
        target.to_text()
    }
}

impl vstd::std_specs::convert::FromSpecImpl<LogTarget> for String {
    open spec fn obeys_from_spec() -> bool {
        false
    }

    open spec fn from_spec(target: LogTarget) -> String {
        arbitrary()
    }
}

/// The severity of an event.
#[allow(clippy::upper_case_acronyms)]
#[derive(Debug, Clone, Copy, PartialEq, Eq, Structural)]
pub enum LogLevel {
    WARN,
    INFO,
    ERROR,
    DEBUG,
}

/// The name of a level as the log stores it.
pub open spec fn level_text(l: LogLevel) -> Seq<char> {
    match l {
        LogLevel::WARN => "WARN"@,
        LogLevel::INFO => "INFO"@,
        LogLevel::ERROR => "ERROR"@,
        LogLevel::DEBUG => "DEBUG"@,
    }
}

impl LogLevel {
    /// The name of the level as the log stores it.
    pub fn to_text(&self) -> (r: String)
        ensures
            r@ == level_text(*self),
    {
        match self {
            LogLevel::WARN => String::from_str("WARN"),
            LogLevel::INFO => String::from_str("INFO"),
            LogLevel::ERROR => String::from_str("ERROR"),
            LogLevel::DEBUG => String::from_str("DEBUG"),
        }
    }
}

impl Default for LogLevel {
    fn default() -> (r: Self)
        ensures
            r == LogLevel::INFO,
    {
        LogLevel::INFO
    }
}

impl From<LogLevel> for String {
    fn from(level: LogLevel) -> (r: String) {
        level.to_text()
    }
}

impl vstd::std_specs::convert::FromSpecImpl<LogLevel> for String {
    open spec fn obeys_from_spec() -> bool {
        false
    }

    open spec fn from_spec(level: LogLevel) -> String {
        arbitrary()
    }
}

/// An event to log: its level, its target and its message.
#[derive(Debug)]
pub struct LogEntry {
    pub level: LogLevel,
    pub target: LogTarget,
    pub message: String,
}


/// Different levels are stored under different names, and different
/// targets too, so the log tells them apart.
pub proof fn law_log_texts_distinct(a: LogLevel, b: LogLevel, c: LogTarget, d: LogTarget)
    ensures
        a != b ==> level_text(a) != level_text(b),
        c != d ==> target_text(c) != target_text(d),
{
    reveal_strlit("WARN");
    reveal_strlit("INFO");
    reveal_strlit("ERROR");
    reveal_strlit("DEBUG");
    reveal_strlit("default");
    reveal_strlit("update_models");
    reveal_strlit("compile_procedures");
    assert("WARN"@[0] != "INFO"@[0] && "WARN"@[0] != "DEBUG"@[0]);
    assert("INFO"@[0] != "DEBUG"@[0]);
    assert("ERROR"@.len() != "WARN"@.len());
    assert("default"@[0] != "update_models"@[0] && "default"@[0] != "compile_procedures"@[0]);
    assert("update_models"@[0] != "compile_procedures"@[0]);
}

/// The names the log stores: levels `WARN`, `INFO`, `ERROR`, `DEBUG`;
/// targets `default`, `update_models`, `compile_procedures`.
pub proof fn law_log_texts()
    ensures
        level_text(LogLevel::WARN) == "WARN"@,
        level_text(LogLevel::INFO) == "INFO"@,
        level_text(LogLevel::ERROR) == "ERROR"@,
        level_text(LogLevel::DEBUG) == "DEBUG"@,
        target_text(LogTarget::Default) == "default"@,
        target_text(LogTarget::ModelsUpdate) == "update_models"@,
        target_text(LogTarget::Compiler) == "compile_procedures"@,
{
}

} // verus!
