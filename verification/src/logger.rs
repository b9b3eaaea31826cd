//! Log entries for the embedding front end.
//!
//! Records are forwarded to the front end over a stream the application
//! installs. The library keeps the filtering and encoding rules: which level
//! passes the filter, and the numeric code and fields an entry travels under.
//! The stream itself, the process-wide logger registration and the clock live
//! in the embedding application, which hands the time in with each record.

use vstd::prelude::*;
use vstd::string::StringSliceAdditionalSpecFns;

verus! {

/// Log verbosity, mirroring the standard levels.
#[derive(Clone, Copy, Debug, PartialEq, Eq, Structural)]
pub enum LogLevel {
    Error,
    Warn,
    Info,
    Debug,
    Trace,
}

/// The numeric code a level travels under in a [`LogEntry`].
pub open spec fn spec_level_code(l: LogLevel) -> int {
    match l {
        LogLevel::Trace => 0,
        LogLevel::Debug => 1,
        LogLevel::Info => 2,
        LogLevel::Warn => 3,
        LogLevel::Error => 4,
    }
}

/// Verbosity rank: a higher-ranked filter admits more records.
pub open spec fn spec_verbosity(l: LogLevel) -> int {
    match l {
        LogLevel::Error => 0,
        LogLevel::Warn => 1,
        LogLevel::Info => 2,
        LogLevel::Debug => 3,
        LogLevel::Trace => 4,
    }
}

/// The target's UTF-8 bytes start with those of `"openmls"`: records the
/// secure-messaging engine emits under its own name, which are filtered out
/// rather than forwarded.
pub open spec fn spec_engine_target(bytes: Seq<u8>) -> bool {
    &&& bytes.len() >= 7
    &&& bytes[0] == 111
    &&& bytes[1] == 112
    &&& bytes[2] == 101
    &&& bytes[3] == 110
    &&& bytes[4] == 109
    &&& bytes[5] == 108
    &&& bytes[6] == 115
}

/// Whether a record's target names the secure-messaging engine.
pub fn is_engine_target(target: &str) -> (r: bool)
    ensures
        r == spec_engine_target(target.spec_bytes()),
{
    let bytes = target.as_bytes();
    if bytes.len() < 7 {
        return false;
    }
    bytes[0] == 111 && bytes[1] == 112 && bytes[2] == 101 && bytes[3] == 110 && bytes[4] == 109
        && bytes[5] == 108 && bytes[6] == 115
}

/// One record as the front end receives it.
pub struct LogEntry {
    pub time_millis: i64,
    pub level: i32,
    pub tag: String,
    pub msg: String,
}

/// Forwards records to the front end's stream, filtered by level. The
/// library tracks the filter level and whether a stream is installed.
pub struct SendToDartLogger {
    pub level: LogLevel,
    pub sink_installed: bool,
}

impl SendToDartLogger {
    pub fn new(level: LogLevel) -> (r: SendToDartLogger)
        ensures
            r.level == level,
            !r.sink_installed,
    {
        SendToDartLogger { level, sink_installed: false }
    }

    /// Installs (or replaces) the front-end stream sink, and reports whether
    /// one was already installed: replacing is normal when the front end hot
    /// reloads, but is worth a warning.
    pub fn set_stream_sink(&mut self) -> (overriding: bool)
        ensures
            final(self).sink_installed,
            final(self).level == old(self).level,
            overriding == old(self).sink_installed,
    {
        let overriding = self.sink_installed;
        self.sink_installed = true;
        overriding
    }

    /// The verbosity rank of `l`.
    pub fn verbosity(l: LogLevel) -> (r: i32)
        ensures
            r == spec_verbosity(l),
    {
        match l {
            LogLevel::Error => 0,
            LogLevel::Warn => 1,
            LogLevel::Info => 2,
            LogLevel::Debug => 3,
            LogLevel::Trace => 4,
        }
    }

    /// Whether a record passes this logger's filter: the secure-messaging
    /// engine's own records never do, everything else up to the filter's
    /// level does.
    pub fn enabled(&self, level: LogLevel, target: &str) -> (r: bool)
        ensures
            r == (!spec_engine_target(target.spec_bytes()) && spec_verbosity(level)
                <= spec_verbosity(self.level)),
    {
        if is_engine_target(target) {
            return false;
        }
        Self::verbosity(level) <= Self::verbosity(self.level)
    }

    /// The entry a record becomes: the level travels as its numeric code,
    /// and the record's fields are kept as they are. The caller supplies the
    /// time, read from its own clock.
    pub fn record_to_entry(time_millis: i64, level: LogLevel, tag: String, msg: String) -> (e:
        LogEntry)
        ensures
            e.time_millis == time_millis,
            e.level == spec_level_code(level),
            e.tag@ == tag@,
            e.msg@ == msg@,
    {
        let code: i32 = match level {
            LogLevel::Trace => 0,
            LogLevel::Debug => 1,
            LogLevel::Info => 2,
            LogLevel::Warn => 3,
            LogLevel::Error => 4,
        };
        LogEntry { time_millis, level: code, tag, msg }
    }
}

} // verus!
