use vstd::prelude::*;

verus! {

/// How important a message is.
#[derive(Clone, Copy, Debug, PartialEq, Eq, Structural)]
pub enum LogLevel {
    Debug,
    Info,
    Warn,
    Error,
}

/// The verbosity a message of the level needs to be shown.
pub open spec fn min_verbosity(level: LogLevel) -> u8 {
    match level {
        LogLevel::Debug => 2,
        LogLevel::Info => 1,
        LogLevel::Warn => 0,
        LogLevel::Error => 0,
    }
}

/// The prefix a message of the level is shown with.
pub open spec fn level_prefix(level: LogLevel) -> Seq<char> {
    match level {
        LogLevel::Debug => "[D] "@,
        LogLevel::Info => "[I] "@,
        LogLevel::Warn => "[W] "@,
        LogLevel::Error => "[E] "@,
    }
}

/// Which messages are shown: debugging ones from verbosity 2, information
/// from 1, warnings and errors always.
#[derive(Debug)]
pub struct Logger {
    pub verbosity: u8,
}

impl Logger {
    /// The prefix to show a message of the level with, or `None` if the
    /// logger's verbosity hides it.
    pub fn prefix_for(&self, level: LogLevel) -> (res: Option<&'static str>)
        ensures
            self.verbosity >= min_verbosity(level) ==> (res matches Some(p) && p@ == level_prefix(level)),
            self.verbosity < min_verbosity(level) ==> res is None,
    {
        let (min, prefix): (u8, &'static str) = match level {
            LogLevel::Debug => (2, "[D] "),
            LogLevel::Info => (1, "[I] "),
            LogLevel::Warn => (0, "[W] "),
            LogLevel::Error => (0, "[E] "),
        };
        if self.verbosity >= min {
            Some(prefix)
        } else {
            None
        }
    }
}

} // verus!
