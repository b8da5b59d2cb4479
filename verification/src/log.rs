//! Severity levels and the rule by which a message is let through. Printing
//! is the caller's business.

use vstd::prelude::*;
use vstd::string::StringExecFns;

verus! {

/// Severity of a message, in rising order.
#[derive(Debug, Copy, Clone, PartialEq, Eq, Structural)]
pub enum LogLevel {
    Debug,
    Info,
    Warning,
    Error,
}

impl LogLevel {
    /// Position of the level in the order of severity, from 0 for `Debug`.
    pub open spec fn spec_rank(self) -> u8 {
        match self {
            LogLevel::Debug => 0,
            LogLevel::Info => 1,
            LogLevel::Warning => 2,
            LogLevel::Error => 3,
        }
    }

    /// Position of the level in the order of severity, from 0 for `Debug`.
    #[verifier::when_used_as_spec(spec_rank)]
    pub fn rank(self) -> (rank: u8)
        ensures
            rank == self.spec_rank(),
    {
        match self {
            LogLevel::Debug => 0,
            LogLevel::Info => 1,
            LogLevel::Warning => 2,
            LogLevel::Error => 3,
        }
    }

    /// Whether a message of this level is let through when `threshold` is the
    /// lowest level that is: exactly when the level is not below it.
    pub fn enabled(self, threshold: LogLevel) -> (enabled: bool)
        ensures
            enabled == (self.rank() >= threshold.rank()),
    {
        self.rank() >= threshold.rank()
    }

    /// The tag that opens a line of this level.
    pub open spec fn spec_tag(self) -> Seq<char> {
        match self {
            LogLevel::Debug => "[D]"@,
            LogLevel::Info => "[I]"@,
            LogLevel::Warning => "[W]"@,
            LogLevel::Error => "[E]"@,
        }
    }

    /// The tag that opens a line of this level.
    pub fn tag(self) -> (tag: &'static str)
        ensures
            tag@ == self.spec_tag(),
    {
        match self {
            LogLevel::Debug => "[D]",
            LogLevel::Info => "[I]",
            LogLevel::Warning => "[W]",
            LogLevel::Error => "[E]",
        }
    }

    /// The text of a message of this level: tag, one space, message. Nothing
    /// if the level is below `threshold`.
    pub fn line(self, threshold: LogLevel, message: &str) -> (line: Option<String>)
        ensures
            line is Some == (self.rank() >= threshold.rank()),
            line is Some ==> line->0@ == self.spec_tag() + " "@ + message@,
    {
        if self.enabled(threshold) {
            let mut text = String::from_str(self.tag());
            text.append(" ");
            text.append(message);
            Some(text)
        } else {
            None
        }
    }
}

} // verus!
