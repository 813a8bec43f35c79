//! Plugin log lines and the rolling log file's naming and rotation rule.

use vstd::prelude::*;
use vstd::string::StringExecFns;
use crate::plugin::types::PluginId;

verus! {

broadcast use vstd::string::group_string_axioms;

/// A log file is rotated before a line would take it past this size.
pub const MAX_LOG_BYTES: u64 = 5242880;

/// Severity of a plugin log line.
#[derive(Debug, Clone, Copy, PartialEq, Eq, Structural)]
pub enum LogLevel {
    Debug,
    Info,
    Warn,
    Error,
}

/// The tag a level is written with.
pub open spec fn level_tag(l: LogLevel) -> Seq<char> {
    match l {
        LogLevel::Debug => "DEBUG"@,
        LogLevel::Info => "INFO"@,
        LogLevel::Warn => "WARN"@,
        LogLevel::Error => "ERROR"@,
    }
}

/// Console logging under a plugin's name.
#[derive(Debug, Clone)]
pub struct NamespacedLog {
    pub plugin_id: String,
}

impl NamespacedLog {
    /// A log writing under `plugin_id`.
    pub fn new(plugin_id: PluginId) -> (r: NamespacedLog)
        ensures
            r.plugin_id@ == plugin_id.0@,
    {
        NamespacedLog { plugin_id: plugin_id.0 }
    }

    /// The console line for a message: `[plugin:<id>] [<LEVEL>] <message>`.
    pub fn line(&self, level: LogLevel, message: &str) -> (r: String)
        ensures
            r@ == "[plugin:"@ + self.plugin_id@ + "] ["@ + level_tag(level) + "] "@ + message@,
    {
        let tag = match level {
            LogLevel::Debug => "DEBUG",
            LogLevel::Info => "INFO",
            LogLevel::Warn => "WARN",
            LogLevel::Error => "ERROR",
        };
        let mut s = String::from_str("[plugin:");
        s.append(self.plugin_id.as_str());
        s.append("] [");
        s.append(tag);
        s.append("] ");
        s.append(message);
        s
    }
}

/// Where a rotated log goes: the log's path with `.1` appended.
pub fn rotated_path(base: &str) -> (r: String)
    ensures
        r@ == base@ + ".1"@,
{
    String::from_str(base).concat(".1")
}

/// The file name of a plugin's rolling log.
pub fn log_file_name(plugin_id: &PluginId) -> (r: String)
    ensures
        r@ == "plugin-"@ + plugin_id.0@ + ".log"@,
{
    let mut s = String::from_str("plugin-");
    s.append(plugin_id.as_str());
    s.append(".log");
    s
}

/// A log of `current` bytes must be rotated before a line of `line_len`
/// bytes is appended.
pub fn needs_rotation(current: u64, line_len: u64) -> (r: bool)
    ensures
        r == (current + line_len > MAX_LOG_BYTES),
{
    line_len > MAX_LOG_BYTES || current > MAX_LOG_BYTES - line_len
}

} // verus!
