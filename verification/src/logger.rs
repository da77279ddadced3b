//! Log severity levels and the filtering rule: a message passes when its
//! level is at or above the configured threshold. Formatting and output are
//! the console's business, outside this library.

use vstd::prelude::*;

verus! {

/// Message severities, most severe first.
#[derive(Clone, Copy, PartialEq, Eq, Structural, Debug)]
pub enum LogLevel {
    Error,
    Warn,
    Info,
    Debug,
    Trace,
}

impl LogLevel {
    /// The numeric rank of a level; smaller is more severe.
    pub open spec fn spec_severity(self) -> u8 {
        match self {
            LogLevel::Error => 0,
            LogLevel::Warn => 1,
            LogLevel::Info => 2,
            LogLevel::Debug => 3,
            LogLevel::Trace => 4,
        }
    }

    pub fn severity(self) -> (r: u8)
        ensures
            r == self.spec_severity(),
    {
        match self {
            LogLevel::Error => 0,
            LogLevel::Warn => 1,
            LogLevel::Info => 2,
            LogLevel::Debug => 3,
            LogLevel::Trace => 4,
        }
    }

    /// Replaces this level.
    pub fn set(&mut self, level: LogLevel)
        ensures
            *final(self) == level,
    {
        *self = level;
    }
}

/// Replaces the configured threshold level.
pub fn set_log_level(current: &mut LogLevel, level: LogLevel)
    ensures
        *final(current) == level,
{
    current.set(level);
}

/// Whether a message at `level` is emitted under threshold `global`:
/// exactly when it is at least as severe.
pub fn should_log(global: LogLevel, level: LogLevel) -> (r: bool)
    ensures
        r == (level.spec_severity() <= global.spec_severity()),
{
    level.severity() <= global.severity()
}

} // verus!
