//! The levels of the Lightning node's log records, and the log levels they are written at.
use vstd::prelude::*;

verus! {

/// The level of a record that the Lightning node logs.
#[derive(Debug, Clone, Copy, PartialEq, Eq, Structural)]
pub enum LdkLogLevel {
    Gossip,
    Trace,
    Debug,
    Info,
    Warn,
    Error,
}

/// The level a record is written at.
#[derive(Debug, Clone, Copy, PartialEq, Eq, Structural)]
pub enum LogLevel {
    Trace,
    Debug,
    Info,
    Warn,
    Error,
}

/// The level a record of the node is written at: gossip is written as trace, every other
/// level as itself.
pub fn to_log_level(level: LdkLogLevel) -> (r: LogLevel)
    ensures
        r == (match level {
            LdkLogLevel::Gossip => LogLevel::Trace,
            LdkLogLevel::Trace => LogLevel::Trace,
            LdkLogLevel::Debug => LogLevel::Debug,
            LdkLogLevel::Info => LogLevel::Info,
            LdkLogLevel::Warn => LogLevel::Warn,
            LdkLogLevel::Error => LogLevel::Error,
        }),
{
    match level {
        LdkLogLevel::Gossip => LogLevel::Trace,
        LdkLogLevel::Trace => LogLevel::Trace,
        LdkLogLevel::Debug => LogLevel::Debug,
        LdkLogLevel::Info => LogLevel::Info,
        LdkLogLevel::Warn => LogLevel::Warn,
        LdkLogLevel::Error => LogLevel::Error,
    }
}

} // verus!
