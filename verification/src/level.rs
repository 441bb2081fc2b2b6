//! Message severities and their ordering.

use vstd::prelude::*;

verus! {

/// Severity of a log message, from most important (`Error`) to most verbose
/// (`Trace`).  A message passes the severity filter when its level is at most
/// as verbose as the configured minimum.
#[derive(Clone, Copy, Debug, PartialEq, Eq, PartialOrd, Ord, Structural)]
pub enum LogLevel {
    Error,
    Warn,
    Info,
    Debug,
    Trace,
}

/// Position of a level in the severity order: 0 for `Error` up to 4 for
/// `Trace`.  Smaller means more important, larger means more verbose.
pub open spec fn spec_rank(level: LogLevel) -> int {
    match level {
        LogLevel::Error => 0,
        LogLevel::Warn => 1,
        LogLevel::Info => 2,
        LogLevel::Debug => 3,
        LogLevel::Trace => 4,
    }
}

/// A message at `level` passes a severity filter set to `min` when it is no
/// more verbose than `min`.
pub open spec fn spec_level_allowed(level: LogLevel, min: LogLevel) -> bool {
    spec_rank(level) <= spec_rank(min)
}

/// The fixed four-character tag a level shows in a rendered line.
pub open spec fn spec_tag(level: LogLevel) -> Seq<char> {
    match level {
        LogLevel::Error => "ERRR"@,
        LogLevel::Warn => "WARN"@,
        LogLevel::Info => "INFO"@,
        LogLevel::Debug => "DBUG"@,
        LogLevel::Trace => "TRCE"@,
    }
}

impl LogLevel {
    /// Numeric position in the severity order.
    pub fn rank(&self) -> (r: u8)
        ensures
            r as int == spec_rank(*self),
    {
        match self {
            LogLevel::Error => 0,
            LogLevel::Warn => 1,
            LogLevel::Info => 2,
            LogLevel::Debug => 3,
            LogLevel::Trace => 4,
        }
    }

    /// Whether a message at this level passes a severity filter set to `min`.
    pub fn allowed_under(&self, min: LogLevel) -> (r: bool)
        ensures
            r == spec_level_allowed(*self, min),
    {
        self.rank() <= min.rank()
    }

    /// The fixed four-character tag shown in a rendered line.
    pub fn tag(&self) -> (r: &'static str)
        ensures
            r@ == spec_tag(*self),
            r@.len() == 4,
    {
        proof {
            reveal_strlit("ERRR");
            reveal_strlit("WARN");
            reveal_strlit("INFO");
            reveal_strlit("DBUG");
            reveal_strlit("TRCE");
        }
        match self {
            LogLevel::Error => "ERRR",
            LogLevel::Warn => "WARN",
            LogLevel::Info => "INFO",
            LogLevel::Debug => "DBUG",
            LogLevel::Trace => "TRCE",
        }
    }
}

} // verus!
