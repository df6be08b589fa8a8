//! Leveled diagnostics: which lines to emit, and where.

use vstd::prelude::*;

verus! {

/// The severity of a diagnostic line, from least to most severe.
#[derive(Debug, Clone, Copy, PartialEq, Eq, Structural)]
pub enum LogLevel {
    Debug,
    Info,
    Warn,
    Error,
}

/// Where the lines of a logger go.
#[derive(Debug, Clone, Copy, PartialEq, Eq, Structural)]
pub enum LogTarget {
    Console,
    Mqtt,
}

/// What to do with one diagnostic line.
#[derive(Debug, Clone, Copy, PartialEq, Eq, Structural)]
pub enum LogAction {
    /// The line is below the logger's level: drop it.
    Skip,
    /// Print the line on the console at this level.
    Console(LogLevel),
    /// Hand the line to the broker connection.
    Mqtt,
}

/// The position of a level in the order of severity.
pub open spec fn severity(l: LogLevel) -> nat {
    match l {
        LogLevel::Debug => 0,
        LogLevel::Info => 1,
        LogLevel::Warn => 2,
        LogLevel::Error => 3,
    }
}

impl LogLevel {
    /// Whether this level is at least as severe as `other`.
    pub fn at_least(&self, other: &LogLevel) -> (r: bool)
        ensures
            r == (severity(*self) >= severity(*other)),
    {
        let a: u8 = match self {
            LogLevel::Debug => 0,
            LogLevel::Info => 1,
            LogLevel::Warn => 2,
            LogLevel::Error => 3,
        };
        let b: u8 = match other {
            LogLevel::Debug => 0,
            LogLevel::Info => 1,
            LogLevel::Warn => 2,
            LogLevel::Error => 3,
        };
        a >= b
    }
}

/// Emits the lines at or above `level` to `target`.
pub struct Logger {
    pub level: LogLevel,
    pub target: LogTarget,
}

impl Logger {
    pub fn new(level: LogLevel, target: LogTarget) -> (r: Self)
        ensures
            r.level == level,
            r.target == target,
    {
        Self { level, target }
    }

    /// Where a line at `level` goes: nowhere below the logger's level,
    /// otherwise to its target.
    pub fn log(&self, level: LogLevel) -> (r: LogAction)
        ensures
            severity(level) < severity(self.level) ==> r == LogAction::Skip,
            severity(level) >= severity(self.level) && self.target == LogTarget::Console ==> r
                == LogAction::Console(level),
            severity(level) >= severity(self.level) && self.target == LogTarget::Mqtt ==> r
                == LogAction::Mqtt,
    {
        if level.at_least(&self.level) {
            match self.target {
                LogTarget::Console => LogAction::Console(level),
                LogTarget::Mqtt => LogAction::Mqtt,
            }
        } else {
            LogAction::Skip
        }
    }
}

} // verus!
