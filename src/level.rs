//! Severity levels and the global gate.
use vstd::prelude::*;
use crate::scope::str_eq;

verus! {

/// Severity of a record, from the most verbose to the most severe.
#[derive(Clone, Copy, Debug, PartialEq, Eq, Structural)]
pub enum Level {
    Trace,
    Debug,
    Info,
    Warn,
    Error,
}

/// Rank of a level: `Trace` is 0 and `Error` is 4.
pub open spec fn severity(l: Level) -> int {
    match l {
        Level::Trace => 0,
        Level::Debug => 1,
        Level::Info => 2,
        Level::Warn => 3,
        Level::Error => 4,
    }
}

/// Whether a record at `level` passes a minimum of `min`.
pub open spec fn at_or_above(level: Level, min: Level) -> bool {
    severity(level) >= severity(min)
}

/// The level a configuration names: its lower-case name.
pub open spec fn level_named(s: Seq<char>) -> Option<Level> {
    if s == "trace"@ {
        Some(Level::Trace)
    } else if s == "debug"@ {
        Some(Level::Debug)
    } else if s == "info"@ {
        Some(Level::Info)
    } else if s == "warn"@ {
        Some(Level::Warn)
    } else if s == "error"@ {
        Some(Level::Error)
    } else {
        None
    }
}

impl Level {
    /// The level named `s`, if it names one.
    pub fn from_name(s: &str) -> (r: Option<Level>)
        ensures
            r == level_named(s@),
    {
        if str_eq(s, "trace") {
            Some(Level::Trace)
        } else if str_eq(s, "debug") {
            Some(Level::Debug)
        } else if str_eq(s, "info") {
            Some(Level::Info)
        } else if str_eq(s, "warn") {
            Some(Level::Warn)
        } else if str_eq(s, "error") {
            Some(Level::Error)
        } else {
            None
        }
    }

    /// The rank of this level, as `severity` states it.
    pub fn severity(&self) -> (r: u8)
        ensures
            r as int == severity(*self),
    {
        match self {
            Level::Trace => 0,
            Level::Debug => 1,
            Level::Info => 2,
            Level::Warn => 3,
            Level::Error => 4,
        }
    }
}

/// The global gate: a record at `level` can be enabled only when it is at or
/// above the process-wide maximum verbosity `max_level`.
pub fn is_possibly_enabled_level(level: Level, max_level: Level) -> (r: bool)
    ensures
        r == at_or_above(level, max_level),
{
    level.severity() >= max_level.severity()
}

} // verus!
