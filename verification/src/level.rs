//! Severity levels.

use vstd::prelude::*;

verus! {

/// Severity of a record. The variants are listed from least to most severe,
/// and [`LogLevel::rank`] gives the position used for filtering.
#[derive(Clone, Copy, Debug, PartialEq, Eq, PartialOrd, Ord, Hash, Structural)]
pub enum LogLevel {
    Trace,
    Debug,
    Info,
    Warn,
    Error,
    Fatal,
}

impl LogLevel {
    /// Position of the level in the order `Trace < Debug < Info < Warn < Error < Fatal`.
    pub open spec fn spec_rank(self) -> int {
        match self {
            LogLevel::Trace => 0,
            LogLevel::Debug => 1,
            LogLevel::Info => 2,
            LogLevel::Warn => 3,
            LogLevel::Error => 4,
            LogLevel::Fatal => 5,
        }
    }

    /// Palette index of the level in the xterm 256-colour table.
    pub open spec fn spec_color(self) -> u8 {
        match self {
            LogLevel::Trace => 81,
            LogLevel::Debug => 202,
            LogLevel::Info => 10,
            LogLevel::Warn => 11,
            LogLevel::Error => 9,
            LogLevel::Fatal => 9,
        }
    }

    /// Position of the level in the severity order.
    pub fn rank(&self) -> (r: u8)
        ensures
            r == self.spec_rank(),
    {
        match self {
            LogLevel::Trace => 0,
            LogLevel::Debug => 1,
            LogLevel::Info => 2,
            LogLevel::Warn => 3,
            LogLevel::Error => 4,
            LogLevel::Fatal => 5,
        }
    }

    /// Palette index of the level in the xterm 256-colour table.
    pub fn color(&self) -> (c: u8)
        ensures
            c == self.spec_color(),
    {
        match self {
            LogLevel::Trace => 81,
            LogLevel::Debug => 202,
            LogLevel::Info => 10,
            LogLevel::Warn => 11,
            LogLevel::Error => 9,
            LogLevel::Fatal => 9,
        }
    }

    /// Palette index of the foreground colour that the pretty formats give
    /// the level's tag: malibu blue, blaze orange, green, yellow, and red for
    /// both `Error` and `Fatal`.
    pub open spec fn spec_fg_color(self) -> u8 {
        match self {
            LogLevel::Trace => 81,
            LogLevel::Debug => 202,
            LogLevel::Info => 2,
            LogLevel::Warn => 3,
            LogLevel::Error => 1,
            LogLevel::Fatal => 1,
        }
    }

    /// The level's name in lower case, as the structured formats write it.
    pub open spec fn spec_name(self) -> Seq<char> {
        match self {
            LogLevel::Trace => "trace"@,
            LogLevel::Debug => "debug"@,
            LogLevel::Info => "info"@,
            LogLevel::Warn => "warn"@,
            LogLevel::Error => "error"@,
            LogLevel::Fatal => "fatal"@,
        }
    }

    /// The level's three-letter tag, as the pretty format writes it.
    pub open spec fn spec_tag(self) -> Seq<char> {
        match self {
            LogLevel::Trace => "TRC"@,
            LogLevel::Debug => "DBG"@,
            LogLevel::Info => "INF"@,
            LogLevel::Warn => "WRN"@,
            LogLevel::Error => "ERR"@,
            LogLevel::Fatal => "FTL"@,
        }
    }

    /// Whether the level is `Error` or `Fatal`, whose messages are set in red.
    pub open spec fn spec_is_failure(self) -> bool {
        self == LogLevel::Error || self == LogLevel::Fatal
    }

    /// Palette index of the foreground colour of the level's tag.
    pub fn fg_color(&self) -> (c: u8)
        ensures
            c == self.spec_fg_color(),
    {
        match self {
            LogLevel::Trace => 81,
            LogLevel::Debug => 202,
            LogLevel::Info => 2,
            LogLevel::Warn => 3,
            LogLevel::Error => 1,
            LogLevel::Fatal => 1,
        }
    }

    /// The level's name in lower case.
    pub fn name(&self) -> (s: &'static str)
        ensures
            s@ == self.spec_name(),
    {
        match self {
            LogLevel::Trace => "trace",
            LogLevel::Debug => "debug",
            LogLevel::Info => "info",
            LogLevel::Warn => "warn",
            LogLevel::Error => "error",
            LogLevel::Fatal => "fatal",
        }
    }

    /// The level's three-letter tag.
    pub fn tag(&self) -> (s: &'static str)
        ensures
            s@ == self.spec_tag(),
    {
        match self {
            LogLevel::Trace => "TRC",
            LogLevel::Debug => "DBG",
            LogLevel::Info => "INF",
            LogLevel::Warn => "WRN",
            LogLevel::Error => "ERR",
            LogLevel::Fatal => "FTL",
        }
    }

    /// Whether the level is `Error` or `Fatal`.
    pub fn is_failure(&self) -> (b: bool)
        ensures
            b == self.spec_is_failure(),
    {
        match self {
            LogLevel::Error => true,
            LogLevel::Fatal => true,
            _ => false,
        }
    }
}

} // verus!
